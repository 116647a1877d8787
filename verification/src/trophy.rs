use vstd::prelude::*;
use vstd::arithmetic::div_mod::lemma_div_by_multiple;
use vstd::arithmetic::div_mod::lemma_div_is_ordered;
use vstd::arithmetic::mul::lemma_mul_inequality;

use crate::error::TrophyError;
use crate::geometry::brick_faces;
use crate::geometry::commit_brick;
use crate::geometry::plinth;
use crate::geometry::plinth_faces;
use crate::geometry::Face;
use crate::geometry::Mesh;
use crate::geometry::Point3;
use crate::histogram::day_count_at;
use crate::text::glyphs_bounded;
use crate::text::place_text;
use crate::text::spec_text_faces;
use crate::text::text_renderable;
use crate::text::GlyphMesh;

verus! {

/// Immutable parameter set of one build.  Lengths are fixed-point
/// integers counting thousandths of a scene unit; the bottom margin must
/// exceed the top margin so the plinth wall slopes outward.
#[derive(Clone, Copy, PartialEq, Eq, Structural, Debug)]
pub struct GeometryConfig {
    pub top_length: i64,
    pub top_width: i64,
    pub plinth_height: i64,
    pub top_margin: i64,
    pub bottom_margin: i64,
    pub maximum_commit_height: i64,
    pub text_depth: i64,
    pub text_height: i64,
}

impl GeometryConfig {
    /// Well-formed parameters: every length lies within one thousand
    /// scene units, and the bottom margin exceeds the top margin.  The
    /// plinth height and the maximum brick height are at least two
    /// thousandths, so that every emitted solid keeps a positive halved
    /// extent and its corners stay distinct.
    pub open spec fn wf(self) -> bool {
        &&& 0 <= self.top_length <= 1_000_000
        &&& 0 <= self.top_width <= 1_000_000
        &&& 2 <= self.plinth_height <= 1_000_000
        &&& 0 <= self.top_margin
        &&& self.top_margin < self.bottom_margin <= 1_000_000
        &&& 2 <= self.maximum_commit_height <= 1_000_000
        &&& 0 <= self.text_depth <= 1_000_000
        &&& 0 <= self.text_height <= 1_000_000
    }

    /// The stock trophy: a 52-week by 7-day top, a sloped two-unit
    /// plinth, bricks up to ten units tall, and a shallow two-unit text
    /// band.
    pub open spec fn default_config() -> GeometryConfig {
        GeometryConfig {
            top_length: 52_000,
            top_width: 7_000,
            plinth_height: 2_000,
            top_margin: 1_000,
            bottom_margin: 3_000,
            maximum_commit_height: 10_000,
            text_depth: 200,
            text_height: 2_000,
        }
    }
}

impl Default for GeometryConfig {
    fn default() -> (r: Self)
        ensures
            r == GeometryConfig::default_config(),
            r.wf(),
    {
        GeometryConfig {
            top_length: 52_000,
            top_width: 7_000,
            plinth_height: 2_000,
            top_margin: 1_000,
            bottom_margin: 3_000,
            maximum_commit_height: 10_000,
            text_depth: 200,
            text_height: 2_000,
        }
    }
}

/// The busiest day's count among the first `n` slots, floored at one so
/// the brick normalization never divides by zero.
pub open spec fn spec_max_commits(heightmap: Seq<usize>, n: int) -> int
    decreases n,
{
    if n <= 0 {
        1
    } else {
        let rest = spec_max_commits(heightmap, n - 1);
        let c = day_count_at(heightmap, n - 1);
        if c > rest {
            c
        } else {
            rest
        }
    }
}

pub proof fn lemma_max_commits_ge(heightmap: Seq<usize>, n: int, d: int)
    requires
        0 <= d < n,
    ensures
        day_count_at(heightmap, d) <= spec_max_commits(heightmap, n),
        1 <= spec_max_commits(heightmap, n),
    decreases n,
{
    if d < n - 1 {
        lemma_max_commits_ge(heightmap, n - 1, d);
    } else {
        lemma_max_commits_nonneg(heightmap, n - 1);
    }
}

pub proof fn lemma_max_commits_nonneg(heightmap: Seq<usize>, n: int)
    ensures
        1 <= spec_max_commits(heightmap, n),
    decreases n,
{
    if n > 0 {
        lemma_max_commits_nonneg(heightmap, n - 1);
    }
}

/// The busiest day's commit count, floored at one.
pub fn max_commits(heightmap: &Vec<usize>) -> (r: usize)
    ensures
        r == spec_max_commits(heightmap@, heightmap@.len() as int),
        r >= 1,
        forall|d: int| 0 <= d < heightmap@.len() ==> heightmap@[d] <= r,
{
    let mut r: usize = 1;
    let mut i: usize = 0;
    while i < heightmap.len()
        invariant
            0 <= i <= heightmap@.len(),
            r == spec_max_commits(heightmap@, i as int),
            r >= 1,
        decreases heightmap@.len() - i,
    {
        if heightmap[i] > r {
            r = heightmap[i];
        }
        i += 1;
    }
    proof {
        assert forall|d: int| 0 <= d < heightmap@.len() implies heightmap@[d] <= r by {
            lemma_max_commits_ge(heightmap@, heightmap@.len() as int, d);
        }
    }
    r
}

/// The height of one day's brick: the day's count, normalized linearly
/// against the busiest day and scaled to the configured maximum height.
/// Integer division truncates the remainder, so the normalized value is
/// floored at two thousandths: a day with commits always gets a brick of
/// positive height whose top and bottom stay apart after halving, where
/// the real-valued normalization would fall below that.
pub open spec fn spec_brick_height(commits: int, max_height: int, max_commits: int) -> int {
    let q = commits * max_height / max_commits;
    if q < 2 {
        2
    } else {
        q
    }
}

/// Every brick of a day with commits has positive height, and no brick
/// exceeds the configured maximum height.
pub proof fn lemma_brick_height_bounds(commits: int, max_height: int, max_commits: int)
    requires
        1 <= commits <= max_commits,
        2 <= max_height,
    ensures
        2 <= spec_brick_height(commits, max_height, max_commits) <= max_height,
{
    lemma_mul_inequality(commits, max_commits, max_height);
    lemma_div_is_ordered(commits * max_height, max_commits * max_height, max_commits);
    lemma_div_by_multiple(max_height, max_commits);
    assert(max_commits * max_height == max_height * max_commits) by (nonlinear_arith);
}

/// Brick height is monotone in the day's count: a busier day never gets
/// a shorter brick.
pub proof fn lemma_brick_height_monotone(
    commits1: int,
    commits2: int,
    max_height: int,
    max_commits: int,
)
    requires
        0 <= commits1 <= commits2,
        0 <= max_height,
        1 <= max_commits,
    ensures
        spec_brick_height(commits1, max_height, max_commits) <= spec_brick_height(
            commits2,
            max_height,
            max_commits,
        ),
{
    lemma_mul_inequality(commits1, commits2, max_height);
    lemma_div_is_ordered(commits1 * max_height, commits2 * max_height, max_commits);
}

/// A day whose count equals the busiest day's gets the full configured
/// maximum height.
pub proof fn lemma_brick_height_at_max(max_height: int, max_commits: int)
    requires
        1 <= max_commits,
        2 <= max_height,
    ensures
        spec_brick_height(max_commits, max_height, max_commits) == max_height,
{
    lemma_div_by_multiple(max_height, max_commits);
    assert(max_commits * max_height == max_height * max_commits) by (nonlinear_arith);
}

fn brick_height(commits: usize, max_height: i64, maxc: usize) -> (r: i64)
    requires
        1 <= maxc,
        1 <= commits <= maxc,
        2 <= max_height <= 1_000_000,
    ensures
        r == spec_brick_height(commits as int, max_height as int, maxc as int),
        2 <= r <= max_height,
{
    let c128: u128 = commits as u128;
    let h128: u128 = max_height as u128;
    proof {
        assert(c128 as int * h128 as int <= u64::MAX as int * 1_000_000) by (nonlinear_arith)
            requires
                c128 <= u64::MAX,
                0 <= h128 <= 1_000_000,
        ;
    }
    let prod: u128 = c128 * h128;
    let q: u128 = prod / (maxc as u128);
    proof {
        lemma_mul_inequality(commits as int, maxc as int, max_height as int);
        lemma_div_is_ordered(
            commits as int * max_height as int,
            maxc as int * max_height as int,
            maxc as int,
        );
        lemma_div_by_multiple(max_height as int, maxc as int);
        assert(maxc as int * max_height as int == max_height as int * maxc as int)
            by (nonlinear_arith);
    }
    let normalized = q as i64;
    if normalized < 2 {
        2
    } else {
        normalized
    }
}

/// Where day `day`'s brick sits: row `day / 7` (week) along the length,
/// column `day % 7` (weekday) along the width, resting on the plinth top.
pub open spec fn brick_center(config: GeometryConfig, day: int, height: int) -> Point3 {
    Point3 {
        x: ((day / 7) * 1000 - config.top_length / 2 + 500) as i64,
        y: ((day % 7) * 1000 - config.top_width / 2 + 500) as i64,
        z: (height / 2 + config.plinth_height / 2) as i64,
    }
}

/// The faces one day contributes: none when the day has no commits, and
/// the twelve faces of a unit-footprint brick otherwise.
pub open spec fn day_faces(
    heightmap: Seq<usize>,
    config: GeometryConfig,
    maxc: int,
    day: int,
) -> Seq<Face> {
    let commits = day_count_at(heightmap, day);
    if commits == 0 {
        Seq::<Face>::empty()
    } else {
        let height = spec_brick_height(commits, config.maximum_commit_height as int, maxc);
        brick_faces(brick_center(config, day, height), 1000, 1000, height)
    }
}

/// All brick faces of the days below `n`, in day order.
pub open spec fn bricks_upto(
    heightmap: Seq<usize>,
    config: GeometryConfig,
    maxc: int,
    n: int,
) -> Seq<Face>
    decreases n,
{
    if n <= 0 {
        Seq::<Face>::empty()
    } else {
        bricks_upto(heightmap, config, maxc, n - 1) + day_faces(heightmap, config, maxc, n - 1)
    }
}

/// How many of the days below `n` have at least one commit.
pub open spec fn nonzero_days_upto(heightmap: Seq<usize>, n: int) -> int
    decreases n,
{
    if n <= 0 {
        0
    } else {
        nonzero_days_upto(heightmap, n - 1) + if day_count_at(heightmap, n - 1) != 0 {
            1int
        } else {
            0int
        }
    }
}

/// How many days of the 52-week grid have at least one commit.  Only the
/// days below 364 are placed on the grid; slot 364 never yields a brick.
pub open spec fn nonzero_days(heightmap: Seq<usize>) -> int {
    nonzero_days_upto(heightmap, 364)
}

/// Each nonzero day contributes exactly twelve faces.
pub proof fn lemma_bricks_face_count(
    heightmap: Seq<usize>,
    config: GeometryConfig,
    maxc: int,
    n: int,
)
    ensures
        bricks_upto(heightmap, config, maxc, n).len() == 12 * nonzero_days_upto(heightmap, n),
    decreases n,
{
    if n > 0 {
        lemma_bricks_face_count(heightmap, config, maxc, n - 1);
    }
}

/// Builds the bricks of every nonzero day of the 52-by-7 grid, in day
/// order.
pub(crate) fn build_commit_bricks(
    heightmap: &Vec<usize>,
    config: &GeometryConfig,
    maxc: usize,
) -> (r: Vec<Face>)
    requires
        config.wf(),
        maxc >= 1,
        forall|d: int| 0 <= d < heightmap@.len() ==> heightmap@[d] <= maxc,
    ensures
        r@ == bricks_upto(heightmap@, *config, maxc as int, 364),
{
    let mut faces: Vec<Face> = Vec::new();
    let mut day: usize = 0;
    while day < 364
        invariant
            0 <= day <= 364,
            config.wf(),
            maxc >= 1,
            forall|d: int| 0 <= d < heightmap@.len() ==> heightmap@[d] <= maxc,
            faces@ == bricks_upto(heightmap@, *config, maxc as int, day as int),
        decreases 364 - day,
    {
        let commits: usize = if day < heightmap.len() {
            heightmap[day]
        } else {
            0
        };
        if commits != 0 {
            let height = brick_height(commits, config.maximum_commit_height, maxc);
            let row = day / 7;
            let col = day % 7;
            let cx: i64 = (row as i64) * 1000 - config.top_length / 2 + 500;
            let cy: i64 = (col as i64) * 1000 - config.top_width / 2 + 500;
            let cz: i64 = height / 2 + config.plinth_height / 2;
            let center = Point3 { x: cx, y: cy, z: cz };
            proof {
                assert(center == brick_center(
                    *config,
                    day as int,
                    spec_brick_height(commits as int, config.maximum_commit_height as int, maxc as int),
                ));
            }
            let mut brick = commit_brick(&center, 1000, 1000, height);
            faces.append(&mut brick);
        }
        day += 1;
    }
    faces
}

/// A side text and a font are a co-required pair: a text request without
/// a font is a configuration error, raised before any mesh is built.
pub fn require_font_for_text(side_text_requested: bool, font_provided: bool) -> (r: Result<
    (),
    TrophyError,
>)
    ensures
        r is Ok <==> (side_text_requested ==> font_provided),
        r matches Err(e) ==> e == TrophyError::Config,
{
    if side_text_requested && !font_provided {
        Err(TrophyError::Config)
    } else {
        Ok(())
    }
}

/// The plinth of a build: a frustum at the origin whose bottom footprint
/// adds the bottom margin to the top footprint's length and width, so
/// its walls slope outward.
pub open spec fn spec_plinth_faces(config: GeometryConfig) -> Seq<Face> {
    plinth_faces(
        Point3 { x: 0, y: 0, z: 0 },
        config.top_length + config.top_margin,
        config.top_width + config.top_margin,
        config.top_length + config.bottom_margin,
        config.top_width + config.bottom_margin,
        config.plinth_height as int,
    )
}

/// Builds the whole trophy mesh: the plinth's twelve faces, the day
/// bricks in day order, and, when a side text is requested, the placed
/// glyph faces.  The text is all or nothing: if it cannot be placed the
/// build fails before any mesh is produced.
pub fn build_trophy(
    heightmap: &Vec<usize>,
    side_text: Option<&Vec<GlyphMesh>>,
    geometry_config: &GeometryConfig,
) -> (r: Result<Mesh, TrophyError>)
    requires
        geometry_config.wf(),
        side_text matches Some(g) ==> g@.len() <= 100_000 && glyphs_bounded(g@),
    ensures
        r is Ok <==> (side_text matches Some(g) ==> text_renderable(g@, *geometry_config)),
        r matches Err(e) ==> e == TrophyError::Font,
        r matches Ok(mesh) ==> mesh.faces@ == spec_plinth_faces(*geometry_config) + bricks_upto(
            heightmap@,
            *geometry_config,
            spec_max_commits(heightmap@, heightmap@.len() as int),
            364,
        ) + (match side_text {
            None => Seq::<Face>::empty(),
            Some(g) => spec_text_faces(g@, *geometry_config),
        }),
        r matches Ok(mesh) ==> mesh.faces@.len() == 12 + 12 * nonzero_days(heightmap@) + (
        match side_text {
            None => 0int,
            Some(g) => spec_text_faces(g@, *geometry_config).len() as int,
        }),
{
    let text_faces: Option<Vec<Face>> = match side_text {
        None => None,
        Some(g) => match place_text(g, geometry_config) {
            Ok(f) => Some(f),
            Err(e) => {
                return Err(e);
            },
        },
    };
    let center = Point3 { x: 0, y: 0, z: 0 };
    let mut faces = plinth(
        &center,
        geometry_config.top_length + geometry_config.top_margin,
        geometry_config.top_width + geometry_config.top_margin,
        geometry_config.top_length + geometry_config.bottom_margin,
        geometry_config.top_width + geometry_config.bottom_margin,
        geometry_config.plinth_height,
    );
    let maxc = max_commits(heightmap);
    let mut bricks = build_commit_bricks(heightmap, geometry_config, maxc);
    faces.append(&mut bricks);
    match text_faces {
        None => {},
        Some(tf) => {
            let mut tf = tf;
            faces.append(&mut tf);
        },
    }
    proof {
        lemma_bricks_face_count(
            heightmap@,
            *geometry_config,
            spec_max_commits(heightmap@, heightmap@.len() as int),
            364,
        );
    }
    Ok(Mesh { faces })
}

} // verus!
