use hue_sensors::history::{has_time, prune, sort_by_time, update, CHART_WINDOW_SECS, HISTORY_WINDOW_SECS};
use hue_sensors::models::CompositeSensor;
use hue_sensors::time::Timestamp;

fn at(secs: i64) -> Timestamp {
    Timestamp::new(secs, 0)
}

#[test]
fn windows_are_fifteen_and_ten_minutes() {
    assert_eq!(HISTORY_WINDOW_SECS, 15 * 60);
    assert_eq!(CHART_WINDOW_SECS, 10 * 60);
}

#[test]
fn update_keeps_one_anchor_before_the_window() {
    let mut h = vec![(at(8000), 1), (at(9000), 2), (at(9200), 3)];
    update(&mut h, at(9500), 4, at(10_000));
    assert_eq!(h, vec![(at(9000), 2), (at(9200), 3), (at(9500), 4)]);
}

#[test]
fn update_keeps_only_the_latest_when_all_are_old() {
    let mut h = vec![(at(1000), 'a'), (at(2000), 'b')];
    update(&mut h, at(3000), 'c', at(10_000));
    assert_eq!(h, vec![(at(3000), 'c')]);
}

#[test]
fn update_does_not_record_a_time_twice() {
    let mut h = vec![(at(9500), true)];
    update(&mut h, at(9500), false, at(10_000));
    assert_eq!(h, vec![(at(9500), true)]);
}

#[test]
fn update_twice_is_update_once() {
    let mut once = vec![(at(8000), 1), (at(9000), 2), (at(9200), 3)];
    update(&mut once, at(8500), 9, at(10_000));
    let mut twice = once.clone();
    update(&mut twice, at(8500), 9, at(10_000));
    assert_eq!(once, vec![(at(9000), 2), (at(9200), 3)]);
    assert_eq!(twice, once);
}

#[test]
fn update_orders_an_unordered_history() {
    let mut h = vec![(at(9600), 1), (at(9300), 2)];
    update(&mut h, at(9400), 3, at(10_000));
    assert_eq!(h, vec![(at(9300), 2), (at(9400), 3), (at(9600), 1)]);
}

#[test]
fn update_starts_an_empty_history() {
    let mut h: Vec<(Timestamp, i32)> = Vec::new();
    update(&mut h, at(5), 7, at(10_000));
    assert_eq!(h, vec![(at(5), 7)]);
}

#[test]
fn a_sample_at_the_cutoff_is_inside_the_window() {
    let mut h = vec![(at(9000), 1)];
    update(&mut h, at(9100), 2, at(10_000));
    assert_eq!(h, vec![(at(9000), 1), (at(9100), 2)]);
    let mut h = vec![(at(8000), 0), (Timestamp::new(9100, 4), 1), (Timestamp::new(9100, 5), 2)];
    prune(&mut h, Timestamp::new(10_000, 5), HISTORY_WINDOW_SECS);
    assert_eq!(h, vec![(Timestamp::new(9100, 4), 1), (Timestamp::new(9100, 5), 2)]);
}

#[test]
fn after_update_the_history_is_ordered_distinct_and_in_the_window() {
    let now = at(100_000);
    let cutoff = 100_000 - HISTORY_WINDOW_SECS;
    let mut h: Vec<(Timestamp, i64)> = Vec::new();
    let times = [99_950, 98_000, 99_200, 99_200, 97_000, 99_100, 99_999, 99_950, 50];
    for t in times {
        update(&mut h, at(t), t, now);
        for pair in h.windows(2) {
            assert!(pair[0].0.is_before(&pair[1].0));
        }
        for (i, sample) in h.iter().enumerate() {
            assert!(i == 0 || sample.0.secs >= cutoff);
        }
    }
    assert_eq!(
        h,
        vec![(at(98_000), 98_000), (at(99_100), 99_100), (at(99_200), 99_200), (at(99_950), 99_950), (at(99_999), 99_999)]
    );
}

#[test]
fn sort_by_time_is_stable() {
    let mut h = vec![(at(3), 'a'), (at(1), 'b'), (at(3), 'c'), (at(1), 'd'), (at(2), 'e')];
    sort_by_time(&mut h);
    assert_eq!(h, vec![(at(1), 'b'), (at(1), 'd'), (at(2), 'e'), (at(3), 'a'), (at(3), 'c')]);
}

#[test]
fn sort_by_time_orders_by_nanoseconds_within_a_second() {
    let mut h = vec![(Timestamp::new(1, 500), 'a'), (Timestamp::new(0, 999_999_999), 'b'), (Timestamp::new(1, 2), 'c')];
    sort_by_time(&mut h);
    assert_eq!(h, vec![(Timestamp::new(0, 999_999_999), 'b'), (Timestamp::new(1, 2), 'c'), (Timestamp::new(1, 500), 'a')]);
}

#[test]
fn prune_with_the_chart_window() {
    let mut h = vec![(at(100), 1), (at(300), 2), (at(500), 3), (at(900), 4)];
    prune(&mut h, at(1000), CHART_WINDOW_SECS);
    assert_eq!(h, vec![(at(300), 2), (at(500), 3), (at(900), 4)]);
    let mut h = vec![(at(400), 1), (at(900), 2)];
    prune(&mut h, at(1000), CHART_WINDOW_SECS);
    assert_eq!(h, vec![(at(400), 1), (at(900), 2)]);
    let mut none: Vec<(Timestamp, u8)> = Vec::new();
    prune(&mut none, at(1000), CHART_WINDOW_SECS);
    assert!(none.is_empty());
}

#[test]
fn has_time_finds_a_sample() {
    let h = vec![(at(1), 'a'), (Timestamp::new(2, 7), 'b')];
    assert!(has_time(&h, Timestamp::new(2, 7)));
    assert!(!has_time(&h, at(2)));
}

#[test]
fn update_history_uses_the_clock_for_the_window() {
    let now = chrono::Utc::now().timestamp();
    let mut h = vec![(at(now - 1200), 1.5f64.to_bits()), (at(now - 960), 2.5f64.to_bits()), (at(now - 60), 3.5f64.to_bits())];
    CompositeSensor::update_history(&mut h, at(now - 5), 4.5f64.to_bits());
    assert_eq!(
        h,
        vec![(at(now - 960), 2.5f64.to_bits()), (at(now - 60), 3.5f64.to_bits()), (at(now - 5), 4.5f64.to_bits())]
    );
    let mut old = vec![(at(10), 1), (at(20), 2)];
    CompositeSensor::update_history(&mut old, at(15), 3);
    assert_eq!(old, vec![(at(20), 2)]);
    let mut fixed = vec![(at(10), 1), (at(20), 2)];
    CompositeSensor::update_history_at(&mut fixed, at(15), 3, at(100));
    assert_eq!(fixed, vec![(at(10), 1), (at(15), 3), (at(20), 2)]);
}

#[test]
fn a_replay_at_a_later_clock_adds_no_sample() {
    let now = at(100_000);
    for h in [
        vec![(at(98_000), 1), (at(99_000), 2), (at(99_500), 3)],
        vec![(at(99_500), 3)],
        vec![(at(10), 1), (at(20), 2)],
        Vec::new(),
    ] {
        for t in [5, 98_500, 99_000, 99_200, 99_999, 200_000] {
            let mut first = h.clone();
            update(&mut first, at(t), 9, now);
            for later in [100_000, 100_001, 100_400, 101_000, 500_000] {
                let mut again = first.clone();
                update(&mut again, at(t), 9, at(later));
                assert!(again.len() <= first.len());
                assert!(again.iter().filter(|s| s.0 == at(t)).count() <= 1);
                let mut windowed = first.clone();
                prune(&mut windowed, at(later), HISTORY_WINDOW_SECS);
                assert_eq!(again, windowed);
            }
        }
    }
}

#[test]
fn a_replay_after_the_clock_stepped_back_may_bring_a_dropped_sample_back() {
    let mut h = vec![(at(1000), 'b')];
    update(&mut h, at(0), 'v', at(10_000));
    assert_eq!(h, vec![(at(1000), 'b')]);
    update(&mut h, at(0), 'v', at(500));
    assert_eq!(h, vec![(at(0), 'v'), (at(1000), 'b')]);
}
