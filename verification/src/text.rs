use vstd::prelude::*;
use vstd::arithmetic::div_mod::lemma_div_by_multiple;
use vstd::arithmetic::div_mod::lemma_div_is_ordered;
use vstd::arithmetic::div_mod::lemma_div_nonincreasing;
use vstd::arithmetic::div_mod::lemma_div_pos_is_pos;

use crate::error::TrophyError;
use crate::geometry::Face;
use crate::geometry::Point3;
use crate::trophy::GeometryConfig;

verus! {

/// One character's extruded mesh in fixed-point thousandths: a vertex
/// list and triangles referencing it by index.  A character the font
/// cannot render carries an empty mesh: it still occupies its horizontal
/// slot but contributes no geometry.
pub struct GlyphMesh {
    pub vertices: Vec<Point3>,
    pub faces: Vec<(usize, usize, usize)>,
}

/// A glyph coordinate the placement arithmetic accepts: within one
/// thousand scene units, so every fixed-point product fits in 64 bits.
pub open spec fn point_bounded(p: Point3) -> bool {
    &&& -1_000_000 <= p.x <= 1_000_000
    &&& -1_000_000 <= p.y <= 1_000_000
    &&& -1_000_000 <= p.z <= 1_000_000
}

pub open spec fn glyph_bounded(g: GlyphMesh) -> bool {
    forall|j: int| 0 <= j < g.vertices@.len() ==> point_bounded(#[trigger] g.vertices@[j])
}

pub open spec fn glyphs_bounded(glyphs: Seq<GlyphMesh>) -> bool {
    forall|i: int| 0 <= i < glyphs.len() ==> glyph_bounded(#[trigger] glyphs[i])
}

/// Truncating division, the semantics of the machine `/` on signed
/// operands: the quotient is rounded toward zero.
pub open spec fn tdiv(a: int, b: int) -> int {
    if a >= 0 {
        a / b
    } else {
        -((-a) / b)
    }
}

/// Divides a fixed-point product back to thousandths.
fn div_milli(a: i64) -> (r: i64)
    requires
        -4_000_000_000_000_000_000 <= a <= 4_000_000_000_000_000_000,
    ensures
        r == tdiv(a as int, 1000),
{
    a / 1000
}

/// Halves a signed fixed-point value, rounding toward zero.
fn half(a: i64) -> (r: i64)
    requires
        -4_000_000_000_000_000_000 <= a <= 4_000_000_000_000_000_000,
    ensures
        r == tdiv(a as int, 2),
{
    a / 2
}

/// The integer square root: the largest `r` with `r * r <= n`.
pub open spec fn spec_isqrt(n: int) -> int
    decreases n,
{
    if n < 1 {
        0
    } else {
        let r = spec_isqrt(n - 1);
        if (r + 1) * (r + 1) <= n {
            r + 1
        } else {
            r
        }
    }
}

pub proof fn lemma_isqrt_bounds(n: int)
    requires
        0 <= n,
    ensures
        0 <= spec_isqrt(n),
        spec_isqrt(n) * spec_isqrt(n) <= n,
        n < (spec_isqrt(n) + 1) * (spec_isqrt(n) + 1),
    decreases n,
{
    if n >= 1 {
        lemma_isqrt_bounds(n - 1);
        let r = spec_isqrt(n - 1);
        if (r + 1) * (r + 1) <= n {
            assert(n < (r + 2) * (r + 2)) by (nonlinear_arith)
                requires
                    0 <= r,
                    n - 1 < (r + 1) * (r + 1),
            ;
        }
    }
}

proof fn lemma_isqrt_unique(n: int, a: int, b: int)
    requires
        0 <= a,
        0 <= b,
        a * a <= n < (a + 1) * (a + 1),
        b * b <= n < (b + 1) * (b + 1),
    ensures
        a == b,
{
    assert(a == b) by (nonlinear_arith)
        requires
            0 <= a,
            0 <= b,
            a * a <= n < (a + 1) * (a + 1),
            b * b <= n < (b + 1) * (b + 1),
    ;
}

/// Computes the integer square root by climbing to the last root whose
/// square still fits under `n`.
fn isqrt(n: i64) -> (r: i64)
    requires
        0 <= n <= 2_000_000_000_000,
    ensures
        r == spec_isqrt(n as int),
        0 <= r <= 1_500_000,
        r * r <= n,
        n < (r + 1) * (r + 1),
{
    let mut r: i64 = 0;
    loop
        invariant
            0 <= r <= 1_500_000,
            r * r <= n <= 2_000_000_000_000,
        ensures
            0 <= r,
            r * r <= n,
            n < (r + 1) * (r + 1),
        decreases 2_000_000 - r,
    {
        let s = r + 1;
        proof {
            assert(s * s <= 2_250_003_000_001int) by (nonlinear_arith)
                requires
                    0 <= s <= 1_500_001,
            ;
        }
        let sq = s * s;
        if sq > n {
            break;
        }
        proof {
            assert(s <= 1_500_000) by (nonlinear_arith)
                requires
                    0 <= s,
                    s * s <= 2_000_000_000_000int,
            ;
        }
        r = s;
    }
    proof {
        lemma_isqrt_bounds(n as int);
        lemma_isqrt_unique(n as int, r as int, spec_isqrt(n as int));
    }
    r
}

/// Extends a running `(min, max)` band of glyph heights by one vertex
/// height.
pub open spec fn merge_bounds(a: Option<(int, int)>, y: int) -> Option<(int, int)> {
    match a {
        None => Some((y, y)),
        Some(mm) => Some(
            (
                if y < mm.0 {
                    y
                } else {
                    mm.0
                },
                if y > mm.1 {
                    y
                } else {
                    mm.1
                },
            ),
        ),
    }
}

/// Joins two optional `(min, max)` bands.
pub open spec fn merge_opt(a: Option<(int, int)>, b: Option<(int, int)>) -> Option<(int, int)> {
    match b {
        None => a,
        Some(bb) => match a {
            None => b,
            Some(aa) => Some(
                (
                    if bb.0 < aa.0 {
                        bb.0
                    } else {
                        aa.0
                    },
                    if bb.1 > aa.1 {
                        bb.1
                    } else {
                        aa.1
                    },
                ),
            ),
        },
    }
}

/// The `(min, max)` height band of the first `k` vertices of one glyph.
pub open spec fn vert_bounds(vs: Seq<Point3>, k: int) -> Option<(int, int)>
    decreases k,
{
    if k <= 0 {
        None
    } else {
        merge_bounds(vert_bounds(vs, k - 1), vs[k - 1].y as int)
    }
}

/// The `(min, max)` height band over all vertices of the first `i`
/// glyphs: the natural vertical extent of the unscaled text.
pub open spec fn seq_bounds(glyphs: Seq<GlyphMesh>, i: int) -> Option<(int, int)>
    decreases i,
{
    if i <= 0 {
        None
    } else {
        merge_opt(
            seq_bounds(glyphs, i - 1),
            vert_bounds(glyphs[i - 1].vertices@, glyphs[i - 1].vertices@.len() as int),
        )
    }
}

proof fn lemma_merge_push(a: Option<(int, int)>, b: Option<(int, int)>, y: int)
    ensures
        merge_bounds(merge_opt(a, b), y) == merge_opt(a, merge_bounds(b, y)),
{
}

proof fn lemma_vert_bounds_range(vs: Seq<Point3>, k: int, lo: int, hi: int)
    requires
        0 <= k <= vs.len(),
        forall|j: int| 0 <= j < vs.len() ==> lo <= (#[trigger] vs[j]).y <= hi,
    ensures
        vert_bounds(vs, k) matches Some(b) ==> lo <= b.0 <= b.1 <= hi,
    decreases k,
{
    if k > 0 {
        lemma_vert_bounds_range(vs, k - 1, lo, hi);
    }
}

proof fn lemma_seq_bounds_range(glyphs: Seq<GlyphMesh>, i: int, lo: int, hi: int)
    requires
        0 <= i <= glyphs.len(),
        forall|n: int, j: int|
            0 <= n < glyphs.len() && 0 <= j < glyphs[n].vertices@.len() ==> lo <= (#[trigger] glyphs[n].vertices@[j]).y <= hi,
    ensures
        seq_bounds(glyphs, i) matches Some(b) ==> lo <= b.0 <= b.1 <= hi,
    decreases i,
{
    if i > 0 {
        lemma_seq_bounds_range(glyphs, i - 1, lo, hi);
        let vs = glyphs[i - 1].vertices@;
        assert(forall|j: int| 0 <= j < vs.len() ==> lo <= (#[trigger] vs[j]).y <= hi);
        lemma_vert_bounds_range(vs, vs.len() as int, lo, hi);
    }
}

/// Whether an executable band equals a ghost band.
pub open spec fn bounds_eq(a: Option<(i64, i64)>, b: Option<(int, int)>) -> bool {
    match a {
        None => b is None,
        Some(x) => b == Some((x.0 as int, x.1 as int)),
    }
}

/// Scans every glyph vertex for the lowest and highest height of the
/// natural (unscaled) text band.
fn text_bounds(glyphs: &Vec<GlyphMesh>) -> (r: Option<(i64, i64)>)
    ensures
        bounds_eq(r, seq_bounds(glyphs@, glyphs@.len() as int)),
{
    let mut cur: Option<(i64, i64)> = None;
    let mut i: usize = 0;
    while i < glyphs.len()
        invariant
            0 <= i <= glyphs@.len(),
            bounds_eq(cur, seq_bounds(glyphs@, i as int)),
        decreases glyphs@.len() - i,
    {
        let g = &glyphs[i];
        let ghost outer = seq_bounds(glyphs@, i as int);
        let mut j: usize = 0;
        while j < g.vertices.len()
            invariant
                0 <= j <= g.vertices@.len(),
                0 <= i < glyphs@.len(),
                g == &glyphs@[i as int],
                outer == seq_bounds(glyphs@, i as int),
                bounds_eq(cur, merge_opt(outer, vert_bounds(g.vertices@, j as int))),
            decreases g.vertices@.len() - j,
        {
            let y = g.vertices[j].y;
            proof {
                lemma_merge_push(outer, vert_bounds(g.vertices@, j as int), y as int);
            }
            cur = match cur {
                None => Some((y, y)),
                Some((mn, mx)) => Some(
                    (
                        if y < mn {
                            y
                        } else {
                            mn
                        },
                        if y > mx {
                            y
                        } else {
                            mx
                        },
                    ),
                ),
            };
            j += 1;
        }
        i += 1;
    }
    cur
}

pub proof fn lemma_tdiv_bound(a: int, b: int, m: int)
    requires
        1 <= b,
        -m <= a <= m,
    ensures
        -m <= tdiv(a, b) <= m,
{
    if a >= 0 {
        lemma_div_pos_is_pos(a, b);
        lemma_div_nonincreasing(a, b);
    } else {
        lemma_div_pos_is_pos(-a, b);
        lemma_div_nonincreasing(-a, b);
    }
}

/// The fixed-point factor (1000 = one) that scales the natural text band
/// of height `nat_h` to the configured text height.
pub open spec fn spec_scale(config: GeometryConfig, nat_h: int) -> int {
    config.text_height * 1000 / nat_h
}

/// How far the glyphs dip below their own baseline.
pub open spec fn spec_drop(mn: int) -> int {
    if mn < 0 {
        -mn
    } else {
        0
    }
}

pub open spec fn spec_drop_scaled(config: GeometryConfig, mn: int, nat_h: int) -> int {
    spec_drop(mn) * spec_scale(config, nat_h) / 1000
}

/// The horizontal run of the plinth's sloped wall.
pub open spec fn spec_wall_x(config: GeometryConfig) -> int {
    config.bottom_margin / 2 - config.top_margin / 2
}

/// The length of the sloped wall: the hypotenuse over the wall's run and
/// the plinth height.
pub open spec fn spec_hyp(config: GeometryConfig) -> int {
    spec_isqrt(
        spec_wall_x(config) * spec_wall_x(config) + config.plinth_height * config.plinth_height,
    )
}

/// Cosine of the wall's slope angle, in thousandths.
pub open spec fn spec_cos(config: GeometryConfig) -> int {
    spec_wall_x(config) * 1000 / spec_hyp(config)
}

/// Sine of the wall's slope angle, in thousandths.
pub open spec fn spec_sin(config: GeometryConfig) -> int {
    config.plinth_height * 1000 / spec_hyp(config)
}

/// How far along the wall the scaled text band starts, so that it sits
/// centered on the wall span, raised by the scaled below-baseline dip.
pub open spec fn spec_dhyp(config: GeometryConfig, mn: int, nat_h: int) -> int {
    tdiv(spec_hyp(config) - config.text_height, 2) + spec_drop_scaled(config, mn, nat_h)
}

pub open spec fn spec_depth_scaled(config: GeometryConfig, nat_h: int) -> int {
    config.text_depth * spec_scale(config, nat_h) / 1000
}

/// The outward offset of the text band: along the wall by `dhyp`, then
/// off the wall by half the scaled extrusion depth.
pub open spec fn spec_dx(config: GeometryConfig, mn: int, nat_h: int) -> int {
    tdiv(spec_cos(config) * spec_dhyp(config, mn, nat_h), 1000) - spec_sin(config)
        * spec_depth_scaled(config, nat_h) / 2000
}

pub open spec fn spec_dy(config: GeometryConfig, mn: int, nat_h: int) -> int {
    tdiv(spec_sin(config) * spec_dhyp(config, mn, nat_h), 1000) + spec_cos(config)
        * spec_depth_scaled(config, nat_h) / 2000
}

/// Character slot `i`'s position along the trophy's length axis.
pub open spec fn spec_slot_x(config: GeometryConfig, nat_h: int, i: int) -> int {
    i * spec_scale(config, nat_h) / 2 - config.top_length / 2
}

pub open spec fn spec_shift_y(config: GeometryConfig, mn: int, nat_h: int) -> int {
    spec_dx(config, mn, nat_h) - (config.top_width + config.bottom_margin) / 2
}

pub open spec fn spec_shift_z(config: GeometryConfig, mn: int, nat_h: int) -> int {
    spec_dy(config, mn, nat_h) - config.plinth_height / 2
}

/// One glyph vertex placed on the wall: rotated about the length axis by
/// the wall's slope (fixed-point sine and cosine), scaled, then
/// translated to its slot.
pub open spec fn spec_place_vertex(
    v: Point3,
    cos_m: int,
    sin_m: int,
    scale: int,
    sx: int,
    sy: int,
    sz: int,
) -> Point3 {
    let ry = tdiv(cos_m * v.y - sin_m * v.z, 1000);
    let rz = tdiv(sin_m * v.y + cos_m * v.z, 1000);
    Point3 {
        x: (tdiv(v.x * scale, 1000) + sx) as i64,
        y: (tdiv(ry * scale, 1000) + sy) as i64,
        z: (tdiv(rz * scale, 1000) + sz) as i64,
    }
}

fn place_vertex(v: &Point3, cos_m: i64, sin_m: i64, scale: i64, sx: i64, sy: i64, sz: i64) -> (r:
    Point3)
    requires
        0 <= cos_m <= 1000,
        0 <= sin_m <= 1000,
        0 <= scale <= 1_000_000_000,
        point_bounded(*v),
        -8_000_000_000_000_000 <= sx <= 8_000_000_000_000_000,
        -8_000_000_000_000_000 <= sy <= 8_000_000_000_000_000,
        -8_000_000_000_000_000 <= sz <= 8_000_000_000_000_000,
    ensures
        r == spec_place_vertex(
            *v,
            cos_m as int,
            sin_m as int,
            scale as int,
            sx as int,
            sy as int,
            sz as int,
        ),
{
    proof {
        assert(-1_000_000_000 <= cos_m * v.y <= 1_000_000_000) by (nonlinear_arith)
            requires
                0 <= cos_m <= 1000,
                -1_000_000 <= v.y <= 1_000_000,
        ;
        assert(-1_000_000_000 <= sin_m * v.z <= 1_000_000_000) by (nonlinear_arith)
            requires
                0 <= sin_m <= 1000,
                -1_000_000 <= v.z <= 1_000_000,
        ;
        assert(-1_000_000_000 <= sin_m * v.y <= 1_000_000_000) by (nonlinear_arith)
            requires
                0 <= sin_m <= 1000,
                -1_000_000 <= v.y <= 1_000_000,
        ;
        assert(-1_000_000_000 <= cos_m * v.z <= 1_000_000_000) by (nonlinear_arith)
            requires
                0 <= cos_m <= 1000,
                -1_000_000 <= v.z <= 1_000_000,
        ;
        assert(-1_000_000_000_000_000 <= v.x * scale <= 1_000_000_000_000_000)
            by (nonlinear_arith)
            requires
                -1_000_000 <= v.x <= 1_000_000,
                0 <= scale <= 1_000_000_000,
        ;
    }
    let ry = div_milli(cos_m * v.y - sin_m * v.z);
    let rz = div_milli(sin_m * v.y + cos_m * v.z);
    proof {
        lemma_tdiv_bound(cos_m * v.y - sin_m * v.z, 1000, 2_000_000_000);
        lemma_tdiv_bound(sin_m * v.y + cos_m * v.z, 1000, 2_000_000_000);
        assert(-2_000_000_000_000_000_000 <= ry * scale <= 2_000_000_000_000_000_000)
            by (nonlinear_arith)
            requires
                -2_000_000_000 <= ry <= 2_000_000_000,
                0 <= scale <= 1_000_000_000,
        ;
        assert(-2_000_000_000_000_000_000 <= rz * scale <= 2_000_000_000_000_000_000)
            by (nonlinear_arith)
            requires
                -2_000_000_000 <= rz <= 2_000_000_000,
                0 <= scale <= 1_000_000_000,
        ;
        lemma_tdiv_bound(v.x as int * scale as int, 1000, 1_000_000_000_000_000);
        lemma_tdiv_bound(ry as int * scale as int, 1000, 2_000_000_000_000_000_000);
        lemma_tdiv_bound(rz as int * scale as int, 1000, 2_000_000_000_000_000_000);
    }
    let px = div_milli(v.x * scale) + sx;
    let py = div_milli(ry * scale) + sy;
    let pz = div_milli(rz * scale) + sz;
    Point3 { x: px, y: py, z: pz }
}

/// The faces the first `k` triangles of one glyph contribute: a triangle
/// whose three indices all point into the vertex list becomes a placed
/// face; any other triangle is skipped.
pub open spec fn glyph_faces_upto(
    g: GlyphMesh,
    cos_m: int,
    sin_m: int,
    scale: int,
    sx: int,
    sy: int,
    sz: int,
    k: int,
) -> Seq<Face>
    decreases k,
{
    if k <= 0 {
        Seq::<Face>::empty()
    } else {
        let rest = glyph_faces_upto(g, cos_m, sin_m, scale, sx, sy, sz, k - 1);
        let f = g.faces@[k - 1];
        if f.0 < g.vertices@.len() && f.1 < g.vertices@.len() && f.2 < g.vertices@.len() {
            rest + seq![
                Face {
                    a: spec_place_vertex(
                        g.vertices@[f.0 as int],
                        cos_m,
                        sin_m,
                        scale,
                        sx,
                        sy,
                        sz,
                    ),
                    b: spec_place_vertex(
                        g.vertices@[f.1 as int],
                        cos_m,
                        sin_m,
                        scale,
                        sx,
                        sy,
                        sz,
                    ),
                    c: spec_place_vertex(
                        g.vertices@[f.2 as int],
                        cos_m,
                        sin_m,
                        scale,
                        sx,
                        sy,
                        sz,
                    ),
                },
            ]
        } else {
            rest
        }
    }
}

/// The faces of the first `i` character slots, in slot order.
pub open spec fn text_faces_upto(
    glyphs: Seq<GlyphMesh>,
    config: GeometryConfig,
    mn: int,
    nat_h: int,
    i: int,
) -> Seq<Face>
    decreases i,
{
    if i <= 0 {
        Seq::<Face>::empty()
    } else {
        text_faces_upto(glyphs, config, mn, nat_h, i - 1) + glyph_faces_upto(
            glyphs[i - 1],
            spec_cos(config),
            spec_sin(config),
            spec_scale(config, nat_h),
            spec_slot_x(config, nat_h, i - 1),
            spec_shift_y(config, mn, nat_h),
            spec_shift_z(config, mn, nat_h),
            glyphs[i - 1].faces@.len() as int,
        )
    }
}

/// Whether the glyphs carry usable geometry: at least one vertex exists
/// and the natural text band has positive height.
pub open spec fn text_renderable(glyphs: Seq<GlyphMesh>, config: GeometryConfig) -> bool {
    seq_bounds(glyphs, glyphs.len() as int) matches Some(b) && b.1 - b.0 > 0
}

/// Every face of the placed side text, in character order.
pub open spec fn spec_text_faces(glyphs: Seq<GlyphMesh>, config: GeometryConfig) -> Seq<Face> {
    match seq_bounds(glyphs, glyphs.len() as int) {
        None => Seq::<Face>::empty(),
        Some(b) => text_faces_upto(glyphs, config, b.0, b.1 - b.0, glyphs.len() as int),
    }
}

/// Places the side text on the plinth's sloped wall: scales the glyphs
/// to the configured text height, rotates them onto the wall's slope,
/// centers the band on the wall span, pulls it clear of the surface by
/// half the scaled extrusion depth, and lines the characters up along
/// the trophy's length axis.  Fails with `Font` when no glyph produced
/// any usable geometry, before any face is emitted.
pub fn place_text(glyphs: &Vec<GlyphMesh>, config: &GeometryConfig) -> (r: Result<
    Vec<Face>,
    TrophyError,
>)
    requires
        config.wf(),
        glyphs@.len() <= 100_000,
        glyphs_bounded(glyphs@),
    ensures
        r is Ok <==> text_renderable(glyphs@, *config),
        r matches Ok(faces) ==> faces@ == spec_text_faces(glyphs@, *config),
        r matches Err(e) ==> e == TrophyError::Font,
{
    let bounds = text_bounds(glyphs);
    let (mn, mx) = match bounds {
        None => {
            return Err(TrophyError::Font);
        },
        Some(b) => b,
    };
    proof {
        assert forall|n: int, j: int|
            0 <= n < glyphs@.len() && 0 <= j < glyphs@[n].vertices@.len() implies -1_000_000 <= (
        #[trigger] glyphs@[n].vertices@[j]).y <= 1_000_000 by {
            assert(glyph_bounded(glyphs@[n]));
            assert(point_bounded(glyphs@[n].vertices@[j]));
        }
        lemma_seq_bounds_range(glyphs@, glyphs@.len() as int, -1_000_000, 1_000_000);
    }
    let nat_h = mx - mn;
    if nat_h <= 0 {
        return Err(TrophyError::Font);
    }
    let ghost mni = mn as int;
    let ghost nat_i = nat_h as int;
    let scale = (config.text_height * 1000) / nat_h;
    proof {
        lemma_div_pos_is_pos(config.text_height as int * 1000, nat_i);
        lemma_div_nonincreasing(config.text_height as int * 1000, nat_i);
        assert(scale == spec_scale(*config, nat_i));
    }
    let drop: i64 = if mn < 0 {
        -mn
    } else {
        0
    };
    proof {
        assert(0 <= drop * scale <= 1_000_000_000_000_000) by (nonlinear_arith)
            requires
                0 <= drop <= 1_000_000,
                0 <= scale <= 1_000_000_000,
        ;
    }
    let drop_scaled = (drop * scale) / 1000;
    proof {
        lemma_div_pos_is_pos(drop as int * scale as int, 1000);
        lemma_div_is_ordered(drop as int * scale as int, 1_000_000_000_000_000, 1000);
        assert(drop_scaled == spec_drop_scaled(*config, mni, nat_i));
    }
    let wall_x = config.bottom_margin / 2 - config.top_margin / 2;
    proof {
        lemma_div_is_ordered(config.top_margin as int, config.bottom_margin as int, 2);
        assert(0 <= wall_x <= 500_000);
        assert(wall_x == spec_wall_x(*config));
        assert(0 <= wall_x * wall_x <= 250_000_000_000int) by (nonlinear_arith)
            requires
                0 <= wall_x <= 500_000,
        ;
        assert(0 <= config.plinth_height * config.plinth_height <= 1_000_000_000_000int)
            by (nonlinear_arith)
            requires
                1 <= config.plinth_height <= 1_000_000,
        ;
    }
    let hyp = isqrt(wall_x * wall_x + config.plinth_height * config.plinth_height);
    proof {
        assert(hyp == spec_hyp(*config));
        assert(wall_x <= hyp && config.plinth_height <= hyp && 1 <= hyp) by (nonlinear_arith)
            requires
                0 <= wall_x,
                1 <= config.plinth_height,
                0 <= hyp,
                wall_x * wall_x + config.plinth_height * config.plinth_height < (hyp + 1) * (hyp
                    + 1),
        ;
    }
    let cos_m = (wall_x * 1000) / hyp;
    let sin_m = (config.plinth_height * 1000) / hyp;
    proof {
        lemma_div_pos_is_pos(wall_x as int * 1000, hyp as int);
        lemma_div_is_ordered(wall_x as int * 1000, hyp as int * 1000, hyp as int);
        lemma_div_by_multiple(1000, hyp as int);
        assert(hyp as int * 1000 == 1000 * hyp as int);
        assert(cos_m <= 1000);
        lemma_div_pos_is_pos(config.plinth_height as int * 1000, hyp as int);
        lemma_div_is_ordered(config.plinth_height as int * 1000, hyp as int * 1000, hyp as int);
        assert(sin_m <= 1000);
        assert(cos_m == spec_cos(*config));
        assert(sin_m == spec_sin(*config));
    }
    let halfgap = half(hyp - config.text_height);
    let dhyp = halfgap + drop_scaled;
    proof {
        lemma_tdiv_bound(hyp as int - config.text_height as int, 2, 2_500_000);
        assert(dhyp == spec_dhyp(*config, mni, nat_i));
        assert(-2_500_000 <= dhyp <= 1_000_000_000_000 + 2_500_000);
        assert(0 <= config.text_depth * scale <= 1_000_000_000_000_000) by (nonlinear_arith)
            requires
                0 <= config.text_depth <= 1_000_000,
                0 <= scale <= 1_000_000_000,
        ;
    }
    let depth_scaled = (config.text_depth * scale) / 1000;
    proof {
        lemma_div_pos_is_pos(config.text_depth as int * scale as int, 1000);
        lemma_div_is_ordered(config.text_depth as int * scale as int, 1_000_000_000_000_000, 1000);
        assert(depth_scaled == spec_depth_scaled(*config, nat_i));
        assert(-2_000_000_000_000_000 <= cos_m * dhyp <= 2_000_000_000_000_000)
            by (nonlinear_arith)
            requires
                0 <= cos_m <= 1000,
                -2_500_000 <= dhyp <= 1_100_000_000_000int,
        ;
        assert(-2_000_000_000_000_000 <= sin_m * dhyp <= 2_000_000_000_000_000)
            by (nonlinear_arith)
            requires
                0 <= sin_m <= 1000,
                -2_500_000 <= dhyp <= 1_100_000_000_000int,
        ;
        assert(0 <= sin_m * depth_scaled <= 1_000_000_000_000_000) by (nonlinear_arith)
            requires
                0 <= sin_m <= 1000,
                0 <= depth_scaled <= 1_000_000_000_000int,
        ;
        assert(0 <= cos_m * depth_scaled <= 1_000_000_000_000_000) by (nonlinear_arith)
            requires
                0 <= cos_m <= 1000,
                0 <= depth_scaled <= 1_000_000_000_000int,
        ;
    }
    let dx = div_milli(cos_m * dhyp) - (sin_m * depth_scaled) / 2000;
    let dy = div_milli(sin_m * dhyp) + (cos_m * depth_scaled) / 2000;
    proof {
        lemma_tdiv_bound(cos_m as int * dhyp as int, 1000, 2_000_000_000_000_000);
        lemma_tdiv_bound(sin_m as int * dhyp as int, 1000, 2_000_000_000_000_000);
        lemma_div_pos_is_pos(sin_m as int * depth_scaled as int, 2000);
        lemma_div_is_ordered(sin_m as int * depth_scaled as int, 1_000_000_000_000_000, 2000);
        lemma_div_pos_is_pos(cos_m as int * depth_scaled as int, 2000);
        lemma_div_is_ordered(cos_m as int * depth_scaled as int, 1_000_000_000_000_000, 2000);
        assert(dx == spec_dx(*config, mni, nat_i));
        assert(dy == spec_dy(*config, mni, nat_i));
    }
    let shift_y = dx - (config.top_width + config.bottom_margin) / 2;
    let shift_z = dy - config.plinth_height / 2;
    proof {
        assert(shift_y == spec_shift_y(*config, mni, nat_i));
        assert(shift_z == spec_shift_z(*config, mni, nat_i));
    }
    let mut faces: Vec<Face> = Vec::new();
    let mut i: usize = 0;
    while i < glyphs.len()
        invariant
            0 <= i <= glyphs@.len(),
            glyphs@.len() <= 100_000,
            config.wf(),
            glyphs_bounded(glyphs@),
            0 <= cos_m <= 1000,
            0 <= sin_m <= 1000,
            0 <= scale <= 1_000_000_000,
            -8_000_000_000_000_000 <= shift_y <= 8_000_000_000_000_000,
            -8_000_000_000_000_000 <= shift_z <= 8_000_000_000_000_000,
            cos_m == spec_cos(*config),
            sin_m == spec_sin(*config),
            scale == spec_scale(*config, nat_i),
            shift_y == spec_shift_y(*config, mni, nat_i),
            shift_z == spec_shift_z(*config, mni, nat_i),
            faces@ == text_faces_upto(glyphs@, *config, mni, nat_i, i as int),
        decreases glyphs@.len() - i,
    {
        proof {
            assert(0 <= (i as int) * (scale as int) <= 100_000_000_000_000int)
                by (nonlinear_arith)
                requires
                    0 <= i as int <= 100_000,
                    0 <= scale as int <= 1_000_000_000,
            ;
        }
        let slot_base = ((i as i64) * scale) / 2;
        proof {
            lemma_div_pos_is_pos(i as int * scale as int, 2);
            lemma_div_is_ordered(i as int * scale as int, 100_000_000_000_000, 2);
        }
        let slot_x = slot_base - config.top_length / 2;
        proof {
            assert(slot_x == spec_slot_x(*config, nat_i, i as int));
        }
        let g = &glyphs[i];
        proof {
            assert(glyph_bounded(glyphs@[i as int]));
        }
        let mut tv: Vec<Point3> = Vec::new();
        let mut j: usize = 0;
        while j < g.vertices.len()
            invariant
                0 <= j <= g.vertices@.len(),
                0 <= i < glyphs@.len(),
                g == &glyphs@[i as int],
                glyph_bounded(glyphs@[i as int]),
                0 <= cos_m <= 1000,
                0 <= sin_m <= 1000,
                0 <= scale <= 1_000_000_000,
                -8_000_000_000_000_000 <= slot_x <= 8_000_000_000_000_000,
                -8_000_000_000_000_000 <= shift_y <= 8_000_000_000_000_000,
                -8_000_000_000_000_000 <= shift_z <= 8_000_000_000_000_000,
                tv@.len() == j,
                forall|k: int|
                    0 <= k < j ==> tv@[k] == spec_place_vertex(
                        g.vertices@[k],
                        cos_m as int,
                        sin_m as int,
                        scale as int,
                        slot_x as int,
                        shift_y as int,
                        shift_z as int,
                    ),
            decreases g.vertices@.len() - j,
        {
            let v = g.vertices[j];
            proof {
                assert(point_bounded(g.vertices@[j as int]));
            }
            let p = place_vertex(&v, cos_m, sin_m, scale, slot_x, shift_y, shift_z);
            tv.push(p);
            j += 1;
        }
        let mut k: usize = 0;
        while k < g.faces.len()
            invariant
                0 <= k <= g.faces@.len(),
                0 <= i < glyphs@.len(),
                g == &glyphs@[i as int],
                tv@.len() == g.vertices@.len(),
                forall|n: int|
                    0 <= n < tv@.len() ==> tv@[n] == spec_place_vertex(
                        g.vertices@[n],
                        cos_m as int,
                        sin_m as int,
                        scale as int,
                        slot_x as int,
                        shift_y as int,
                        shift_z as int,
                    ),
                faces@ == text_faces_upto(glyphs@, *config, mni, nat_i, i as int)
                    + glyph_faces_upto(
                    glyphs@[i as int],
                    cos_m as int,
                    sin_m as int,
                    scale as int,
                    slot_x as int,
                    shift_y as int,
                    shift_z as int,
                    k as int,
                ),
            decreases g.faces@.len() - k,
        {
            let (fa, fb, fc) = g.faces[k];
            if fa < tv.len() && fb < tv.len() && fc < tv.len() {
                faces.push(Face { a: tv[fa], b: tv[fb], c: tv[fc] });
            }
            k += 1;
        }
        proof {
            assert(cos_m == spec_cos(*config) && sin_m == spec_sin(*config) && scale == spec_scale(
                *config,
                nat_i,
            ) && slot_x == spec_slot_x(*config, nat_i, i as int) && shift_y == spec_shift_y(
                *config,
                mni,
                nat_i,
            ) && shift_z == spec_shift_z(*config, mni, nat_i));
        }
        i += 1;
    }
    proof {
        assert(faces@ == spec_text_faces(glyphs@, *config));
    }
    Ok(faces)
}

} // verus!
