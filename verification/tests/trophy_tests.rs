use git_trophy::date::day_of_year;
use git_trophy::date::is_leap_year;
use git_trophy::error::TrophyError;
use git_trophy::export::export_models;
use git_trophy::export::ply_model;
use git_trophy::export::stl_model;
use git_trophy::geometry::commit_brick;
use git_trophy::geometry::plinth;
use git_trophy::geometry::Mesh;
use git_trophy::geometry::Point3;
use git_trophy::text::place_text;
use git_trophy::text::GlyphMesh;
use git_trophy::trophy::build_trophy;
use git_trophy::trophy::require_font_for_text;
use git_trophy::trophy::GeometryConfig;

fn p(x: i64, y: i64, z: i64) -> Point3 {
    Point3 { x, y, z }
}

#[test]
fn leap_year_rule() {
    assert!(is_leap_year(2000));
    assert!(!is_leap_year(1900));
    assert!(is_leap_year(2024));
    assert!(!is_leap_year(2023));
    assert!(is_leap_year(-4));
}

#[test]
fn day_of_year_examples() {
    assert_eq!(day_of_year(1970, 1, 1), 0);
    assert_eq!(day_of_year(2020, 3, 1), 60);
    assert_eq!(day_of_year(2021, 3, 1), 59);
    assert_eq!(day_of_year(2020, 12, 31), 365);
    assert_eq!(day_of_year(2021, 12, 31), 364);
}

#[test]
fn brick_has_twelve_faces_around_its_center() {
    let faces = commit_brick(&p(0, 0, 0), 1000, 1000, 1000);
    assert_eq!(faces.len(), 12);
    // bottom face, first triangle, first corner
    assert_eq!(faces[0].a, p(-500, -500, -500));
    assert_eq!(faces[0].b, p(500, -500, -500));
    // top ring sits half the height above the center
    assert_eq!(faces[2].a, p(-500, -500, 500));
}

#[test]
fn plinth_slopes_from_bottom_to_top_footprint() {
    let faces = plinth(&p(0, 0, 0), 2000, 1000, 4000, 3000, 2000);
    assert_eq!(faces.len(), 12);
    // bottom ring uses the bottom footprint
    assert_eq!(faces[0].a, p(-2000, -1500, -1000));
    // top ring uses the top footprint
    assert_eq!(faces[2].a, p(-1000, -500, 1000));
}

#[test]
fn all_zero_histogram_yields_plinth_only() {
    let h = vec![0usize; 365];
    let mesh = build_trophy(&h, None, &GeometryConfig::default()).unwrap();
    assert_eq!(mesh.faces.len(), 12);
}

#[test]
fn face_count_is_twelve_per_nonzero_day_plus_plinth() {
    let mut h = vec![0usize; 365];
    h[0] = 1;
    h[33] = 4;
    h[363] = 2;
    let mesh = build_trophy(&h, None, &GeometryConfig::default()).unwrap();
    assert_eq!(mesh.faces.len(), 12 + 12 * 3);
}

#[test]
fn day_364_never_gets_a_brick() {
    let mut h = vec![0usize; 365];
    h[364] = 9;
    let mesh = build_trophy(&h, None, &GeometryConfig::default()).unwrap();
    assert_eq!(mesh.faces.len(), 12);
}

#[test]
fn busiest_day_brick_reaches_the_maximum_height() {
    let mut h = vec![0usize; 365];
    h[0] = 5;
    let mesh = build_trophy(&h, None, &GeometryConfig::default()).unwrap();
    assert_eq!(mesh.faces.len(), 24);
    // the single brick occupies faces 12..24; its bottom z is the plinth
    // top, its top z sits the full configured 10 units higher
    let bottom = mesh.faces[12].a;
    let top = mesh.faces[14].a;
    assert_eq!(bottom, Point3 { x: -26_000, y: -3_500, z: 1_000 });
    assert_eq!(top.z - bottom.z, 10_000);
}

#[test]
fn quiet_day_brick_keeps_a_positive_height() {
    // count 1 against a busiest day of 20000 normalizes below one
    // thousandth; the emitted brick is floored at two thousandths
    let mut h = vec![0usize; 365];
    h[0] = 1;
    h[1] = 20_000;
    let mesh = build_trophy(&h, None, &GeometryConfig::default()).unwrap();
    let bottom = mesh.faces[12].a;
    let top = mesh.faces[14].a;
    assert_eq!(top.z - bottom.z, 2);
    // the floored brick is still a genuine solid: eight distinct corners
    let mut corners: Vec<Point3> = Vec::new();
    for f in &mesh.faces[12..24] {
        for c in [f.a, f.b, f.c] {
            if !corners.contains(&c) {
                corners.push(c);
            }
        }
    }
    assert_eq!(corners.len(), 8);
}

#[test]
fn brick_height_scales_against_the_busiest_day() {
    let mut h = vec![0usize; 365];
    h[0] = 1;
    h[1] = 4;
    let mesh = build_trophy(&h, None, &GeometryConfig::default()).unwrap();
    // day 0's brick: count 1 of max 4 of 10 units = 2.5 units tall
    let bottom = mesh.faces[12].a;
    let top = mesh.faces[14].a;
    assert_eq!(top.z - bottom.z, 2_500);
}

#[test]
fn text_without_font_fails_before_any_mesh_is_built() {
    assert_eq!(require_font_for_text(true, false), Err(TrophyError::Config));
    assert_eq!(require_font_for_text(true, true), Ok(()));
    assert_eq!(require_font_for_text(false, false), Ok(()));
    assert_eq!(require_font_for_text(false, true), Ok(()));
}

#[test]
fn text_with_no_usable_glyph_is_a_font_error() {
    let h = vec![0usize; 365];
    let glyphs = vec![GlyphMesh { vertices: vec![], faces: vec![] }];
    let r = build_trophy(&h, Some(&glyphs), &GeometryConfig::default());
    assert!(matches!(r, Err(TrophyError::Font)));
}

#[test]
fn flat_glyph_band_is_a_font_error() {
    let glyphs = vec![GlyphMesh {
        vertices: vec![p(0, 500, 0), p(1000, 500, 0)],
        faces: vec![],
    }];
    let r = place_text(&glyphs, &GeometryConfig::default());
    assert!(matches!(r, Err(TrophyError::Font)));
}

#[test]
fn placed_glyph_matches_the_fixed_point_transform() {
    // One right triangle, two units tall, under the stock configuration:
    // wall run 1.0, plinth height 2.0, wall length isqrt(5.0) = 2.236,
    // cos = 447, sin = 894 (thousandths), scale 1.0, band offset
    // dx = -37, dy = 149.
    let glyphs = vec![GlyphMesh {
        vertices: vec![p(0, 0, 0), p(1000, 2000, 0), p(0, 2000, 0)],
        faces: vec![(0, 1, 2)],
    }];
    let faces = place_text(&glyphs, &GeometryConfig::default()).unwrap();
    assert_eq!(faces.len(), 1);
    assert_eq!(faces[0].a, p(-26_000, -5_037, -851));
    assert_eq!(faces[0].b, p(-25_000, -4_143, 937));
    assert_eq!(faces[0].c, p(-26_000, -4_143, 937));
}

#[test]
fn glyph_triangles_with_dangling_indices_are_skipped() {
    let glyphs = vec![GlyphMesh {
        vertices: vec![p(0, 0, 0), p(1000, 2000, 0)],
        faces: vec![(0, 1, 7)],
    }];
    let faces = place_text(&glyphs, &GeometryConfig::default()).unwrap();
    assert_eq!(faces.len(), 0);
}

#[test]
fn unrenderable_character_still_occupies_its_slot() {
    // the same triangle in slot 0 and in slot 2, with an empty slot 1:
    // slot 2 sits one scaled half-unit further along the length axis
    let tri = GlyphMesh {
        vertices: vec![p(0, 0, 0), p(1000, 2000, 0), p(0, 2000, 0)],
        faces: vec![(0, 1, 2)],
    };
    let tri2 = GlyphMesh {
        vertices: vec![p(0, 0, 0), p(1000, 2000, 0), p(0, 2000, 0)],
        faces: vec![(0, 1, 2)],
    };
    let empty = GlyphMesh { vertices: vec![], faces: vec![] };
    let faces = place_text(&vec![tri, empty, tri2], &GeometryConfig::default()).unwrap();
    assert_eq!(faces.len(), 2);
    // scale is 1000 (one to one), so slot 2 is shifted by 2 * 500
    assert_eq!(faces[1].a.x - faces[0].a.x, 1000);
    assert_eq!(faces[1].a.y, faces[0].a.y);
    assert_eq!(faces[1].a.z, faces[0].a.z);
}

#[test]
fn trophy_with_text_appends_the_glyph_faces_last() {
    let mut h = vec![0usize; 365];
    h[5] = 2;
    let glyphs = vec![GlyphMesh {
        vertices: vec![p(0, 0, 0), p(1000, 2000, 0), p(0, 2000, 0)],
        faces: vec![(0, 1, 2)],
    }];
    let mesh = build_trophy(&h, Some(&glyphs), &GeometryConfig::default()).unwrap();
    // plinth + one brick + one text triangle
    assert_eq!(mesh.faces.len(), 12 + 12 + 1);
    assert_eq!(mesh.faces[24].a, p(-26_000, -5_037, -851));
}

#[test]
fn ply_and_stl_describe_the_same_vertices() {
    let mut h = vec![0usize; 365];
    h[3] = 2;
    h[10] = 5;
    let mesh = build_trophy(&h, None, &GeometryConfig::default()).unwrap();
    let ply = ply_model(&mesh);
    let stl = stl_model(&mesh);
    assert_eq!(ply.faces.len(), stl.facets.len());
    for (i, facet) in stl.facets.iter().enumerate() {
        let (a, b, c) = ply.faces[i];
        assert_eq!(ply.vertices[a], facet.a);
        assert_eq!(ply.vertices[b], facet.b);
        assert_eq!(ply.vertices[c], facet.c);
    }
    for v in ply.vertices.iter() {
        assert!(stl.facets.iter().any(|f| f.a == *v || f.b == *v || f.c == *v));
    }
}

#[test]
fn export_models_yields_both_matching_layouts() {
    let mut h = vec![0usize; 365];
    h[42] = 1;
    let mesh = build_trophy(&h, None, &GeometryConfig::default()).unwrap();
    let (ply, stl) = export_models(&mesh).unwrap();
    assert_eq!(stl.facets, mesh.faces);
    assert_eq!(ply.vertices.len(), 3 * mesh.faces.len());
    for (i, facet) in stl.facets.iter().enumerate() {
        let (a, b, c) = ply.faces[i];
        assert_eq!(ply.vertices[a], facet.a);
        assert_eq!(ply.vertices[b], facet.b);
        assert_eq!(ply.vertices[c], facet.c);
    }
}

#[test]
fn exporting_keeps_the_mesh_geometry_unchanged() {
    let faces = commit_brick(&p(0, 0, 0), 1000, 1000, 2000);
    let mesh = Mesh { faces: faces.clone() };
    let stl = stl_model(&mesh);
    assert_eq!(stl.facets, faces);
    let ply = ply_model(&mesh);
    assert_eq!(ply.vertices.len(), 36);
    assert_eq!(ply.faces[0], (0, 1, 2));
    assert_eq!(ply.faces[11], (33, 34, 35));
}
