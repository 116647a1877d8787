use vstd::prelude::*;
use vstd::seq_lib::commutative_foldl;
use vstd::seq_lib::lemma_fold_left_permutation;

use crate::date::day_of_year;
use crate::date::spec_day_of_year;
use crate::date::utc_date_of;
use crate::date::utc_date_of_timestamp;
use crate::error::TrophyError;

verus! {

/// One commit as the aggregation stage sees it: its timestamp in Unix
/// seconds and the committer name, when the commit carries one.
pub struct CommitRecord {
    pub time_seconds: i64,
    pub committer: Option<String>,
}

/// The committer-name views of an optional allow-list.
pub open spec fn names_view(names: Option<Vec<String>>) -> Option<Seq<Seq<char>>> {
    match names {
        None => None,
        Some(ns) => Some(ns.deep_view()),
    }
}

/// Whether a commit passes the committer allow-list: with no list every
/// commit passes; with a list, only a commit whose committer name is
/// exactly present in the list.  A commit without a committer name never
/// passes an active list.
pub open spec fn name_selected(committer: Option<String>, names: Option<Seq<Seq<char>>>) -> bool {
    match names {
        None => true,
        Some(ns) => match committer {
            None => false,
            Some(name) => ns.contains(name@),
        },
    }
}

/// The `(year, day-of-year)` slot of a commit, or `None` when its
/// timestamp has no UTC calendar date.
pub open spec fn commit_slot(rec: CommitRecord) -> Option<(int, int)> {
    match utc_date_of(rec.time_seconds) {
        None => None,
        Some(ymd) => Some(
            (ymd.0 as int, spec_day_of_year(ymd.0 as int, ymd.1 as int, ymd.2 as int)),
        ),
    }
}

/// Whether one commit contributes to day slot `day` under the given year
/// filter and committer allow-list.  Day 365 (December 31 of a leap year)
/// is never a slot of the histogram, so such a commit contributes nowhere.
pub open spec fn record_counts(
    rec: CommitRecord,
    year: Option<i32>,
    names: Option<Seq<Seq<char>>>,
    day: int,
) -> bool {
    &&& name_selected(rec.committer, names)
    &&& match commit_slot(rec) {
        None => false,
        Some(slot) => slot.1 == day && match year {
            None => true,
            Some(y) => slot.0 == y as int,
        },
    }
}

/// How many of the given commits contribute to day slot `day`.
pub open spec fn count_for_day(
    recs: Seq<CommitRecord>,
    year: Option<i32>,
    names: Option<Seq<Seq<char>>>,
    day: int,
) -> nat
    decreases recs.len(),
{
    if recs.len() == 0 {
        0
    } else {
        count_for_day(recs.drop_last(), year, names, day) + if record_counts(
            recs.last(),
            year,
            names,
            day,
        ) {
            1nat
        } else {
            0nat
        }
    }
}

pub proof fn lemma_count_le_len(
    recs: Seq<CommitRecord>,
    year: Option<i32>,
    names: Option<Seq<Seq<char>>>,
    day: int,
)
    ensures
        count_for_day(recs, year, names, day) <= recs.len(),
    decreases recs.len(),
{
    if recs.len() > 0 {
        lemma_count_le_len(recs.drop_last(), year, names, day);
    }
}

/// A commit that lands on day-of-year 365 — December 31 of a leap year —
/// has no destination slot: adding it to the record stream changes no
/// bucket of the histogram.
pub proof fn lemma_leap_day_dropped(
    recs: Seq<CommitRecord>,
    rec: CommitRecord,
    year: Option<i32>,
    names: Option<Seq<Seq<char>>>,
)
    requires
        commit_slot(rec) matches Some(slot) && slot.1 == 365,
    ensures
        forall|day: int|
            0 <= day < 365 ==> count_for_day(recs.push(rec), year, names, day) == count_for_day(
                recs,
                year,
                names,
                day,
            ),
{
    assert forall|day: int| 0 <= day < 365 implies count_for_day(recs.push(rec), year, names, day)
        == count_for_day(recs, year, names, day) by {
        assert(recs.push(rec).drop_last() =~= recs);
        assert(recs.push(rec).last() == rec);
        assert(!record_counts(rec, year, names, day));
    }
}

fn contains_string(ns: &Vec<String>, name: &String) -> (r: bool)
    ensures
        r == ns.deep_view().contains(name@),
{
    let mut i: usize = 0;
    while i < ns.len()
        invariant
            0 <= i <= ns@.len(),
            forall|j: int| 0 <= j < i ==> ns.deep_view()[j] != name@,
        decreases ns@.len() - i,
    {
        if ns[i] == *name {
            assert(ns.deep_view()[i as int] == name@);
            return true;
        }
        i += 1;
    }
    false
}

fn committer_selected(committer: &Option<String>, names: &Option<Vec<String>>) -> (r: bool)
    ensures
        r == name_selected(*committer, names_view(*names)),
{
    match names {
        None => true,
        Some(ns) => match committer {
            None => false,
            Some(name) => contains_string(ns, name),
        },
    }
}

/// A fresh all-zero histogram: one slot for each of the 365 retained
/// days of a year.
pub fn zero_heightmap() -> (r: Vec<usize>)
    ensures
        r@.len() == 365,
        forall|d: int| 0 <= d < 365 ==> r@[d] == 0,
{
    let mut h: Vec<usize> = Vec::new();
    while h.len() < 365
        invariant
            h@.len() <= 365,
            forall|d: int| 0 <= d < h@.len() ==> h@[d] == 0,
        decreases 365 - h@.len(),
    {
        h.push(0);
    }
    h
}

/// Aggregates one repository's commit stream into a 365-slot histogram.
///
/// Slot `d` holds the number of commits whose UTC date falls on
/// day-of-year `d` and that pass the year filter and the committer
/// allow-list.  The run aborts with `Timestamp` as soon as any commit's
/// timestamp has no UTC calendar date.
pub fn build_history_heightmap(
    records: &Vec<CommitRecord>,
    year_selected: Option<i32>,
    committer_names_selected: &Option<Vec<String>>,
) -> (r: Result<Vec<usize>, TrophyError>)
    ensures
        (r is Ok) <==> (forall|j: int|
            0 <= j < records@.len() ==> utc_date_of(records@[j].time_seconds) is Some),
        r matches Ok(h) ==> h@.len() == 365 && forall|d: int|
            0 <= d < 365 ==> h@[d] == count_for_day(
                records@,
                year_selected,
                names_view(*committer_names_selected),
                d,
            ),
        r matches Err(e) ==> e == TrophyError::Timestamp,
{
    let ghost names = names_view(*committer_names_selected);
    let mut h = zero_heightmap();
    let mut i: usize = 0;
    proof {
        assert(records@.take(0) =~= Seq::<CommitRecord>::empty());
    }
    while i < records.len()
        invariant
            0 <= i <= records@.len(),
            h@.len() == 365,
            names == names_view(*committer_names_selected),
            forall|d: int|
                0 <= d < 365 ==> h@[d] == count_for_day(
                    records@.take(i as int),
                    year_selected,
                    names,
                    d,
                ),
            forall|j: int| 0 <= j < i ==> utc_date_of(records@[j].time_seconds) is Some,
        decreases records@.len() - i,
    {
        let rec = &records[i];
        match utc_date_of_timestamp(rec.time_seconds) {
            None => {
                return Err(TrophyError::Timestamp);
            },
            Some((y, m, d)) => {
                let doy = day_of_year(y, m, d);
                let year_ok = match year_selected {
                    None => true,
                    Some(selected) => selected == y,
                };
                let name_ok = committer_selected(&rec.committer, committer_names_selected);
                proof {
                    assert(records@.take(i as int + 1).drop_last() =~= records@.take(i as int));
                    assert(records@.take(i as int + 1).last() == records@[i as int]);
                }
                if year_ok && name_ok && doy < 365 {
                    let slot = doy as usize;
                    proof {
                        lemma_count_le_len(records@.take(i as int), year_selected, names, slot as int);
                    }
                    let cur = h[slot];
                    h[slot] = cur + 1;
                    assert(forall|dd: int|
                        0 <= dd < 365 ==> (record_counts(records@[i as int], year_selected, names, dd)
                            <==> dd == slot as int));
                } else {
                    assert(forall|dd: int|
                        0 <= dd < 365 ==> !record_counts(records@[i as int], year_selected, names, dd));
                }
                i += 1;
            },
        }
    }
    proof {
        assert(records@.take(records@.len() as int) =~= records@);
    }
    Ok(h)
}

/// The per-day count an optional clip ceiling leaves of `commits`:
/// `min(c, commits)` under `Some(c)`, `commits` itself under `None`.
pub open spec fn spec_clip(clip: Option<usize>, commits: int) -> int {
    match clip {
        None => commits,
        Some(c) => if commits < c as int {
            commits
        } else {
            c as int
        },
    }
}

/// Clipping is idempotent: reapplying `min(c, _)` with the same ceiling
/// yields the same value.
pub proof fn lemma_clip_idempotent(clip: Option<usize>, commits: int)
    ensures
        spec_clip(clip, spec_clip(clip, commits)) == spec_clip(clip, commits),
{
}

/// The count a histogram holds for day `d`; days it does not cover count
/// as zero.
pub open spec fn day_count_at(heightmap: Seq<usize>, d: int) -> int {
    if 0 <= d < heightmap.len() {
        heightmap[d] as int
    } else {
        0
    }
}

/// The combined count for day `d`: each repository's count is clipped
/// first, then the clipped counts are summed across all repositories.
pub open spec fn total_for_day(heightmaps: Seq<Seq<usize>>, clip: Option<usize>, d: int) -> int {
    heightmaps.fold_left(0int, |acc: int, m: Seq<usize>| acc + spec_clip(clip, day_count_at(m, d)))
}

proof fn lemma_total_step(heightmaps: Seq<Seq<usize>>, clip: Option<usize>, d: int, i: int)
    requires
        0 <= i < heightmaps.len(),
    ensures
        total_for_day(heightmaps.take(i + 1), clip, d) == total_for_day(heightmaps.take(i), clip, d)
            + spec_clip(clip, day_count_at(heightmaps[i], d)),
{
    assert(heightmaps.take(i + 1).drop_last() =~= heightmaps.take(i));
    assert(heightmaps.take(i + 1).last() == heightmaps[i]);
}

proof fn lemma_total_prefix_le(heightmaps: Seq<Seq<usize>>, clip: Option<usize>, d: int, i: int)
    requires
        0 <= i <= heightmaps.len(),
    ensures
        total_for_day(heightmaps.take(i), clip, d) <= total_for_day(heightmaps, clip, d),
    decreases heightmaps.len() - i,
{
    if i == heightmaps.len() {
        assert(heightmaps.take(i) =~= heightmaps);
    } else {
        lemma_total_step(heightmaps, clip, d, i);
        lemma_total_prefix_le(heightmaps, clip, d, i + 1);
    }
}

/// Cross-repository summation is order-independent: permuting the list of
/// per-repository histograms does not change the combined count of any
/// day.
pub proof fn lemma_combine_permutation(
    heightmaps1: Seq<Seq<usize>>,
    heightmaps2: Seq<Seq<usize>>,
    clip: Option<usize>,
    d: int,
)
    requires
        heightmaps1.to_multiset() == heightmaps2.to_multiset(),
    ensures
        total_for_day(heightmaps1, clip, d) == total_for_day(heightmaps2, clip, d),
{
    let f = |acc: int, m: Seq<usize>| acc + spec_clip(clip, day_count_at(m, d));
    assert(commutative_foldl(f));
    lemma_fold_left_permutation(heightmaps1, heightmaps2, f, 0int);
}

/// Combines per-repository histograms into the final one: for each day,
/// clip each repository's count to the optional ceiling, then sum the
/// clipped counts elementwise across repositories.
pub fn combine_heightmaps(heightmaps: &Vec<Vec<usize>>, clip: Option<usize>) -> (r: Vec<usize>)
    requires
        forall|d: int|
            0 <= d < 365 ==> total_for_day(heightmaps.deep_view(), clip, d) <= usize::MAX,
    ensures
        r@.len() == 365,
        forall|d: int| 0 <= d < 365 ==> r@[d] == total_for_day(heightmaps.deep_view(), clip, d),
{
    let ghost dv = heightmaps.deep_view();
    let mut out = zero_heightmap();
    let mut i: usize = 0;
    proof {
        assert(dv.take(0) =~= Seq::<Seq<usize>>::empty());
    }
    while i < heightmaps.len()
        invariant
            0 <= i <= heightmaps@.len(),
            dv == heightmaps.deep_view(),
            out@.len() == 365,
            forall|d: int| 0 <= d < 365 ==> total_for_day(dv, clip, d) <= usize::MAX,
            forall|d: int| 0 <= d < 365 ==> out@[d] == total_for_day(dv.take(i as int), clip, d),
        decreases heightmaps@.len() - i,
    {
        let hm = &heightmaps[i];
        proof {
            assert(dv[i as int] =~= hm@);
        }
        let mut d: usize = 0;
        while d < 365
            invariant
                0 <= d <= 365,
                0 <= i < heightmaps@.len(),
                dv == heightmaps.deep_view(),
                hm@ == heightmaps@[i as int]@,
                dv[i as int] =~= hm@,
                out@.len() == 365,
                forall|dd: int| 0 <= dd < 365 ==> total_for_day(dv, clip, dd) <= usize::MAX,
                forall|dd: int|
                    0 <= dd < d ==> out@[dd] == total_for_day(dv.take(i as int + 1), clip, dd),
                forall|dd: int|
                    d <= dd < 365 ==> out@[dd] == total_for_day(dv.take(i as int), clip, dd),
            decreases 365 - d,
        {
            let commits: usize = if d < hm.len() {
                hm[d]
            } else {
                0
            };
            let clipped: usize = match clip {
                None => commits,
                Some(c) => if commits < c {
                    commits
                } else {
                    c
                },
            };
            proof {
                assert(commits as int == day_count_at(dv[i as int], d as int));
                assert(clipped as int == spec_clip(clip, day_count_at(dv[i as int], d as int)));
                lemma_total_step(dv, clip, d as int, i as int);
                lemma_total_prefix_le(dv, clip, d as int, i as int + 1);
            }
            let cur = out[d];
            out[d] = cur + clipped;
            d += 1;
        }
        i += 1;
    }
    proof {
        assert(dv.take(dv.len() as int) =~= dv);
    }
    out
}

} // verus!
