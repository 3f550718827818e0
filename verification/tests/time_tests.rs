use market::{Duration, Instant, TimeOfDay};

#[test]
fn new_counts_seconds_since_midnight() {
    assert_eq!(TimeOfDay::new(0, 0).seconds_since_midnight(), 0);
    assert_eq!(TimeOfDay::new(8, 0).seconds_since_midnight(), 28_800);
    assert_eq!(TimeOfDay::new(18, 30).seconds_since_midnight(), 66_600);
    assert_eq!(TimeOfDay::new(23, 59).seconds_since_midnight(), 86_340);
}

#[test]
fn new_runs_over_into_the_next_day() {
    assert_eq!(TimeOfDay::new(24, 0).seconds_since_midnight(), 0);
    assert_eq!(TimeOfDay::new(25, 61).seconds_since_midnight(), 3_600 + 3_660);
    assert_eq!(TimeOfDay::new(255, 255).seconds_since_midnight(), (255 * 3_600 + 255 * 60) % 86_400);
}

#[test]
fn from_instant_wraps_every_day() {
    assert_eq!(TimeOfDay::from_instant(Instant(0)).seconds_since_midnight(), 0);
    assert_eq!(TimeOfDay::from_instant(Instant(86_399)).seconds_since_midnight(), 86_399);
    assert_eq!(TimeOfDay::from_instant(Instant(86_400)).seconds_since_midnight(), 0);
    assert_eq!(TimeOfDay::from_instant(Instant(3 * 86_400 + 32_400)), TimeOfDay::new(9, 0));
    assert_eq!(TimeOfDay::from_instant(Instant(u64::MAX)).seconds_since_midnight(), (u64::MAX % 86_400) as u32);
}

#[test]
fn earlier_by_subtracts_within_the_day() {
    let eight = TimeOfDay::new(8, 0);
    assert_eq!(eight.earlier_by(Duration(100)).seconds_since_midnight(), 28_700);
    assert_eq!(eight.earlier_by(Duration(0)), eight);
    assert_eq!(eight.earlier_by(Duration(28_800)).seconds_since_midnight(), 0);
}

#[test]
fn earlier_by_wraps_at_midnight() {
    let half_past_midnight = TimeOfDay::new(0, 30);
    assert_eq!(half_past_midnight.earlier_by(Duration(3_600)), TimeOfDay::new(23, 30));
    assert_eq!(half_past_midnight.earlier_by(Duration(86_400)), half_past_midnight);
    assert_eq!(half_past_midnight.earlier_by(Duration(2 * 86_400 + 1_801)).seconds_since_midnight(), 86_399);
    assert_eq!(
        TimeOfDay::new(0, 0).earlier_by(Duration(u64::MAX)).seconds_since_midnight(),
        (86_400 - (u64::MAX % 86_400)) as u32 % 86_400
    );
}

#[test]
fn is_before_compares_on_the_same_day() {
    assert!(TimeOfDay::new(9, 0).is_before(&TimeOfDay::new(18, 0)));
    assert!(!TimeOfDay::new(19, 0).is_before(&TimeOfDay::new(18, 0)));
    assert!(!TimeOfDay::new(18, 0).is_before(&TimeOfDay::new(18, 0)));
}
