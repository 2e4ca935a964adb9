use mist_core::parse::sanify_run;
use mist_core::timer::run::Run;

fn names(n: usize) -> Vec<String> {
    (0..n).map(|i| format!("segment {}", i)).collect()
}

#[test]
fn record_keeps_what_it_is_given() {
    let mut run = Run::new(
        "title".to_string(),
        "category".to_string(),
        Some(200),
        1234,
        names(2),
        vec![1000, 234],
        vec![900, 200],
        vec![(2, 2480), (1, 234)],
    );
    assert_eq!(run.game_title(), "title");
    assert_eq!(run.category(), "category");
    assert_eq!(run.offset(), Some(200));
    assert_eq!(run.pb(), 1234);
    assert_eq!(run.len(), 2);
    assert_eq!(run.splits(), &names(2));
    assert_eq!(run.pb_times(), &vec![1000, 234]);
    assert_eq!(run.gold_times(), &vec![900, 200]);
    assert_eq!(run.sum_times(), &vec![(2, 2480), (1, 234)]);
    assert!(run.is_valid());

    run.set_pb(1200);
    run.set_pb_times(&[990, 210]);
    run.set_gold_time(190, 1);
    run.set_sum_time((3, 3470), 0);
    assert_eq!(run.pb(), 1200);
    assert_eq!(run.pb_times(), &vec![990, 210]);
    assert_eq!(run.gold_times(), &vec![900, 190]);
    assert_eq!(run.sum_times(), &vec![(3, 3470), (1, 234)]);
    assert_eq!(run.game_title(), "title");
}

#[test]
fn empty_record_is_valid() {
    let run = Run::default();
    assert_eq!(run.len(), 0);
    assert_eq!(run.pb(), 0);
    assert_eq!(run.offset(), None);
    assert_eq!(run.game_title(), "");
    assert!(run.is_valid());
    assert!(run.has_room(usize::MAX));
}

#[test]
fn record_with_mismatched_series_is_not_valid() {
    let run = Run::new(String::new(), String::new(), None, 0, names(2), vec![1], vec![1, 2], vec![(1, 1), (1, 2)]);
    assert!(!run.is_valid());
    let run = Run::new(String::new(), String::new(), None, 0, names(1), vec![1], vec![], vec![(1, 1)]);
    assert!(!run.is_valid());
    let run = Run::new(String::new(), String::new(), None, 0, names(1), vec![1], vec![1], vec![]);
    assert!(!run.is_valid());
}

#[test]
fn record_beyond_the_limits_is_not_valid() {
    let limit: u128 = 1 << 61;
    let ok = Run::new(String::new(), String::new(), None, 0, names(1), vec![limit], vec![limit], vec![(2, 3 * limit)]);
    assert!(ok.is_valid());
    let long_best = Run::new(String::new(), String::new(), None, 0, names(1), vec![limit + 1], vec![0], vec![(0, 0)]);
    assert!(!long_best.is_valid());
    let long_gold = Run::new(String::new(), String::new(), None, 0, names(1), vec![0], vec![limit + 1], vec![(0, 0)]);
    assert!(!long_gold.is_valid());
    let heavy_total = Run::new(String::new(), String::new(), None, 0, names(1), vec![0], vec![0], vec![(2, 3 * limit + 1)]);
    assert!(!heavy_total.is_valid());
    // A total without samples is on record like any other.
    let total_without_samples = Run::new(String::new(), String::new(), None, 0, names(1), vec![0], vec![0], vec![(0, limit)]);
    assert!(total_without_samples.is_valid());
    let heavy_without_samples = Run::new(String::new(), String::new(), None, 0, names(1), vec![0], vec![0], vec![(0, limit + 1)]);
    assert!(!heavy_without_samples.is_valid());
    let many_samples = Run::new(String::new(), String::new(), None, 0, names(1), vec![0], vec![0], vec![(u128::MAX, u128::MAX)]);
    assert!(many_samples.is_valid());
}

#[test]
fn room_for_samples_is_counted_per_accumulator() {
    let limit: u128 = 1 << 65;
    let run = Run::new(String::new(), String::new(), None, 0, names(2), vec![0, 0], vec![0, 0], vec![(3, 0), (limit - 5, 0)]);
    assert!(run.has_room(0));
    assert!(run.has_room(5));
    assert!(!run.has_room(6));
    let full = Run::new(String::new(), String::new(), None, 0, names(1), vec![0], vec![0], vec![(limit + 1, 0)]);
    assert!(!full.has_room(0));
}

#[test]
fn normalizing_pads_short_series_with_zeros() {
    let run = Run::new(
        "test".to_string(),
        "test".to_string(),
        Some(200),
        1234,
        names(3),
        vec![1234],
        vec![],
        vec![(2, 1234), (1, 7)],
    );
    let clean = sanify_run(&run);
    assert_eq!(clean.pb_times(), &vec![1234, 0, 0]);
    assert_eq!(clean.gold_times(), &vec![0, 0, 0]);
    assert_eq!(clean.sum_times(), &vec![(2, 1234), (1, 7), (0, 0)]);
    assert_eq!(clean.splits(), &names(3));
    assert_eq!(clean.game_title(), "test");
    assert_eq!(clean.category(), "test");
    assert_eq!(clean.offset(), Some(200));
    assert_eq!(clean.pb(), 1234);
    assert!(clean.is_valid());
}

#[test]
fn normalizing_cuts_long_series() {
    let run = Run::new(String::new(), String::new(), None, 0, names(1), vec![1, 2, 3], vec![4, 5], vec![(1, 6), (1, 7)]);
    let clean = sanify_run(&run);
    assert_eq!(clean.pb_times(), &vec![1]);
    assert_eq!(clean.gold_times(), &vec![4]);
    assert_eq!(clean.sum_times(), &vec![(1, 6)]);
}

#[test]
fn normalizing_twice_changes_nothing_more() {
    let run = Run::new(String::new(), String::new(), None, 9, names(2), vec![5], vec![4, 3, 2], vec![]);
    let once = sanify_run(&run);
    let twice = sanify_run(&once);
    assert_eq!(once.pb_times(), twice.pb_times());
    assert_eq!(once.gold_times(), twice.gold_times());
    assert_eq!(once.sum_times(), twice.sum_times());
    assert_eq!(twice.pb_times(), &vec![5, 0]);
    assert_eq!(twice.gold_times(), &vec![4, 3]);
    assert_eq!(twice.sum_times(), &vec![(0, 0), (0, 0)]);
}

#[test]
fn sum_of_best_adds_up_the_golds() {
    let run = Run::new(String::new(), String::new(), None, 0, names(3), vec![0, 0, 0], vec![900, 1800, 2700], vec![(0, 0), (0, 0), (0, 0)]);
    assert_eq!(run.sum_of_best(), 5400);
    assert_eq!(Run::default().sum_of_best(), 0);
}

#[test]
fn normalizing_keeps_every_value_on_record() {
    let run = Run::new(String::new(), String::new(), None, 0, names(3), vec![1, 2, 3], vec![1, 2], vec![(0, 77), (2, 10)]);
    let clean = sanify_run(&run);
    assert_eq!(clean.sum_times(), &vec![(0, 77), (2, 10), (0, 0)]);
    assert_eq!(clean.pb_times(), &vec![1, 2, 3]);
    assert_eq!(clean.gold_times(), &vec![1, 2, 0]);
    assert!(clean.is_valid());
}
