[package]
name = "git_trophy"
version = "0.1.0"
edition = "2021"
publish = false

[dependencies]
anyhow = "=1.0.104"
chrono = "=0.4.45"
clap = "=3.2.25"
git2 = { version = "=0.21.0", default-features = false }
ttf2mesh = "=0.2.1"
