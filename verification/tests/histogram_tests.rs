use git_trophy::error::TrophyError;
use git_trophy::histogram::build_history_heightmap;
use git_trophy::histogram::combine_heightmaps;
use git_trophy::histogram::zero_heightmap;
use git_trophy::histogram::CommitRecord;

fn rec(secs: i64, name: Option<&str>) -> CommitRecord {
    CommitRecord { time_seconds: secs, committer: name.map(String::from) }
}

const DAY: i64 = 86_400;

#[test]
fn empty_repository_histogram_has_length_365() {
    let h = build_history_heightmap(&vec![], None, &None).unwrap();
    assert_eq!(h.len(), 365);
    assert!(h.iter().all(|&c| c == 0));
}

#[test]
fn zero_heightmap_has_length_365() {
    let h = zero_heightmap();
    assert_eq!(h.len(), 365);
    assert!(h.iter().all(|&c| c == 0));
}

#[test]
fn epoch_commit_lands_on_day_zero() {
    // 1970-01-01T00:00:00Z
    let h = build_history_heightmap(&vec![rec(0, None)], None, &None).unwrap();
    assert_eq!(h[0], 1);
    assert_eq!(h.iter().sum::<usize>(), 1);
}

#[test]
fn same_day_commits_aggregate() {
    let records = vec![rec(0, None), rec(3600, None), rec(DAY, None)];
    let h = build_history_heightmap(&records, None, &None).unwrap();
    assert_eq!(h[0], 2);
    assert_eq!(h[1], 1);
}

#[test]
fn leap_year_march_first_is_day_60() {
    // 2020-03-01T00:00:00Z
    let h = build_history_heightmap(&vec![rec(1_583_020_800, None)], None, &None).unwrap();
    assert_eq!(h[60], 1);
}

#[test]
fn common_year_march_first_is_day_59() {
    // 2021-03-01T00:00:00Z
    let h = build_history_heightmap(&vec![rec(1_614_556_800, None)], None, &None).unwrap();
    assert_eq!(h[59], 1);
}

#[test]
fn leap_year_december_31_is_dropped() {
    // 2020-12-31T00:00:00Z falls on day-of-year 365, which has no slot.
    let h = build_history_heightmap(&vec![rec(1_609_372_800, None)], None, &None).unwrap();
    assert_eq!(h.len(), 365);
    assert_eq!(h.iter().sum::<usize>(), 0);
}

#[test]
fn leap_year_december_30_is_kept_as_day_364() {
    // 2020-12-30T00:00:00Z
    let h = build_history_heightmap(&vec![rec(1_609_286_400, None)], None, &None).unwrap();
    assert_eq!(h[364], 1);
}

#[test]
fn out_of_range_timestamp_is_a_timestamp_error() {
    let r = build_history_heightmap(&vec![rec(i64::MAX, None)], None, &None);
    assert_eq!(r, Err(TrophyError::Timestamp));
}

#[test]
fn year_filter_keeps_only_that_year() {
    // 2020-03-01 and 2021-03-02 (1_614_643_200), filtered to 2020.
    let records = vec![rec(1_583_020_800, None), rec(1_614_643_200, None)];
    let h = build_history_heightmap(&records, Some(2020), &None).unwrap();
    assert_eq!(h.iter().sum::<usize>(), 1);
    assert_eq!(h[60], 1);
}

#[test]
fn committer_filter_is_exact_and_case_sensitive() {
    let records = vec![
        rec(0, Some("alice")),
        rec(0, Some("Alice")),
        rec(0, Some("bob")),
        rec(0, None),
    ];
    let names = Some(vec![String::from("alice")]);
    let h = build_history_heightmap(&records, None, &names).unwrap();
    assert_eq!(h[0], 1);
}

#[test]
fn commits_without_committer_pass_only_without_filter() {
    let records = vec![rec(0, None)];
    let unfiltered = build_history_heightmap(&records, None, &None).unwrap();
    assert_eq!(unfiltered[0], 1);
    let filtered =
        build_history_heightmap(&records, None, &Some(vec![String::from("alice")])).unwrap();
    assert_eq!(filtered[0], 0);
}

#[test]
fn clip_applies_per_repository_before_the_sum() {
    let mut a = vec![0usize; 365];
    a[0] = 3;
    let mut b = vec![0usize; 365];
    b[0] = 4;
    let combined = combine_heightmaps(&vec![a, b], Some(2));
    assert_eq!(combined[0], 4);
    assert_eq!(combined.len(), 365);
}

#[test]
fn clipping_twice_equals_clipping_once() {
    let mut a = vec![0usize; 365];
    a[0] = 9;
    a[7] = 1;
    let once = combine_heightmaps(&vec![a], Some(4));
    let twice = combine_heightmaps(&vec![once.clone()], Some(4));
    assert_eq!(once, twice);
}

#[test]
fn combining_is_order_independent() {
    let mut a = vec![0usize; 365];
    a[0] = 3;
    a[100] = 7;
    let mut b = vec![0usize; 365];
    b[0] = 4;
    b[200] = 2;
    let mut c = vec![0usize; 365];
    c[100] = 1;
    let fwd = combine_heightmaps(&vec![a.clone(), b.clone(), c.clone()], Some(5));
    let rev = combine_heightmaps(&vec![c, b, a], Some(5));
    assert_eq!(fwd, rev);
}

#[test]
fn short_heightmaps_count_missing_days_as_zero() {
    let a = vec![2usize; 10];
    let combined = combine_heightmaps(&vec![a], None);
    assert_eq!(combined[9], 2);
    assert_eq!(combined[10], 0);
    assert_eq!(combined.len(), 365);
}

#[test]
fn without_clip_the_raw_counts_are_summed() {
    let mut a = vec![0usize; 365];
    a[0] = 3;
    let mut b = vec![0usize; 365];
    b[0] = 4;
    let combined = combine_heightmaps(&vec![a, b], None);
    assert_eq!(combined[0], 7);
}

#[test]
fn year_filter_with_no_matching_commit_yields_all_zeros() {
    let records = vec![rec(0, None), rec(DAY, None)];
    let h = build_history_heightmap(&records, Some(2020), &None).unwrap();
    assert_eq!(h.iter().sum::<usize>(), 0);
    assert_eq!(h.len(), 365);
}

#[test]
fn error_kinds_are_distinct() {
    assert_ne!(TrophyError::Repository, TrophyError::Io);
    assert_ne!(TrophyError::Config, TrophyError::Font);
    assert_ne!(TrophyError::Timestamp, TrophyError::Config);
}
