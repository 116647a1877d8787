pub mod date;
pub mod error;
pub mod export;
pub mod geometry;
pub mod histogram;
pub mod text;
pub mod trophy;
