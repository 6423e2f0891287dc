use hue_sensors::text::{same_text, sorts_before_or_with};
use hue_sensors::time::{Timestamp, TICKS_PER_SECOND};

#[test]
fn same_text_compares_characters() {
    assert!(same_text("", ""));
    assert!(same_text("motion", "motion"));
    assert!(!same_text("motion", "Motion"));
    assert!(!same_text("motion", "motio"));
    assert!(!same_text("", "a"));
    assert!(same_text("Küche ☀", "Küche ☀"));
    assert!(!same_text("Küche", "Kuche"));
}

#[test]
fn sorts_before_or_with_is_the_order_of_strings() {
    let words = ["", "a", "A", "Z", "ab", "b", "Attic", "attic", "Küche", "Kz", "é", "z", "zz", "☀", "a\u{10FFFF}", "a b"];
    for a in words {
        for b in words {
            assert_eq!(sorts_before_or_with(a, b), a <= b, "{:?} {:?}", a, b);
        }
    }
}

#[test]
fn timestamps_order_by_seconds_then_nanoseconds() {
    let a = Timestamp::new(5, 10);
    assert!(a.is_before(&Timestamp::new(5, 11)));
    assert!(a.is_before(&Timestamp::new(6, 0)));
    assert!(!a.is_before(&a));
    assert!(!a.is_before(&Timestamp::new(5, 9)));
    assert!(!a.is_before(&Timestamp::new(4, 999_999_999)));
    assert!(Timestamp::new(-1, 0).is_before(&Timestamp::new(0, 0)));
    assert!(Timestamp::new(59, 1_500_000_000).is_before(&Timestamp::new(60, 0)));
    assert!(Timestamp::new(i64::MIN, 0).is_before(&Timestamp::new(i64::MAX, 0)));
    assert_eq!(TICKS_PER_SECOND, 1 << 32);
    assert_eq!(Timestamp::new(3, 4), Timestamp { secs: 3, nanos: 4 });
}

#[test]
fn windows_are_closed_at_their_start() {
    let now = Timestamp::new(1000, 500);
    assert!(Timestamp::new(100, 500).is_within(&now, 900));
    assert!(!Timestamp::new(100, 499).is_within(&now, 900));
    assert!(Timestamp::new(2000, 0).is_within(&now, 900));
    assert!(!Timestamp::new(99, 999_999_999).is_within(&now, 900));
    assert!(Timestamp::new(100, 501).is_newer_than(&now, 900));
    assert!(!Timestamp::new(100, 500).is_newer_than(&now, 900));
    assert!(Timestamp::new(940, 500).is_within_minutes(&now, 1));
    assert!(!Timestamp::new(940, 499).is_within_minutes(&now, 1));
    assert!(Timestamp::new(0, 0).is_within(&Timestamp::new(i64::MIN, 0), i64::MAX));
    assert!(!Timestamp::new(0, 0).is_within(&Timestamp::new(i64::MAX, 0), i64::MIN));
    assert!(Timestamp::new(i64::MIN, 0).is_within_minutes(&Timestamp::new(i64::MAX, 0), i64::MAX));
    assert!(Timestamp::new(5, 0).is_within(&Timestamp::new(4, 0), -1));
    assert!(!Timestamp::new(5, 0).is_newer_than(&Timestamp::new(4, 0), -1));
}
