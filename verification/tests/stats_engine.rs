use queuesim::stats::{bump, Ratio};
use queuesim::weighted_average::{duration, weighted_average, weighted_total};

#[test]
fn duration_is_last_sample_time() {
    let empty: Vec<(u64, usize)> = Vec::new();
    assert_eq!(duration(&empty), 0);
    let samples = vec![(0u64, 1usize), (4, 2), (9, 0)];
    assert_eq!(duration(&samples), 9);
}

#[test]
fn weighted_total_is_step_integral() {
    // Value 1 holds for 2 ticks, then value 2 holds for 1 tick: 2*1 + 1*2.
    let samples = vec![(0u64, 1usize), (2, 2), (3, 1)];
    assert_eq!(weighted_total(&samples), 4);
    let empty: Vec<(u64, usize)> = Vec::new();
    assert_eq!(weighted_total(&empty), 0);
    let single = vec![(5u64, 3usize)];
    assert_eq!(weighted_total(&single), 0);
}

#[test]
fn weighted_average_divides_by_span() {
    let samples = vec![(0u64, 1usize), (2, 2), (3, 1)];
    assert_eq!(weighted_average(&samples), Ratio { num: 4, den: 3 });
}

#[test]
fn weighted_average_empty_history_is_zero() {
    let empty: Vec<(u64, usize)> = Vec::new();
    assert_eq!(weighted_average(&empty), Ratio { num: 0, den: 1 });
}

#[test]
fn weighted_average_zero_span_reports_last_value() {
    let samples = vec![(0u64, 7usize)];
    assert_eq!(weighted_average(&samples), Ratio { num: 7, den: 1 });
}

#[test]
fn ratio_constructors() {
    let r = Ratio::new(3, 4);
    assert_eq!(r, Ratio { num: 3, den: 4 });
    assert_eq!(Ratio::whole(9), Ratio { num: 9, den: 1 });
}

#[test]
fn bump_saturates_at_counter_maximum() {
    assert_eq!(bump(0), 1);
    assert_eq!(bump(41), 42);
    assert_eq!(bump(usize::MAX), usize::MAX);
}
