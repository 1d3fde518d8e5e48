use web_apis_in_rust::{Counters, Operation, UsageStats};

#[test]
fn new_stats_are_zero() {
    let stats = UsageStats::new();
    assert_eq!(stats.count(Operation::ToCelcius), 0);
    assert_eq!(stats.count(Operation::ToFahrenheit), 0);
}

#[test]
fn counts_match_invocations() {
    let stats = UsageStats::new();
    let ops = [
        Operation::ToCelcius,
        Operation::ToFahrenheit,
        Operation::ToCelcius,
        Operation::ToCelcius,
        Operation::ToFahrenheit,
    ];
    for op in ops {
        let (counted, _) = stats.record(op);
        assert!(counted);
    }
    let snap = stats.snapshot();
    assert_eq!(snap.count(Operation::ToCelcius), 3);
    assert_eq!(snap.count(Operation::ToFahrenheit), 2);
}

#[test]
fn many_increments_are_all_counted() {
    let stats = UsageStats::new();
    for _ in 0..1000 {
        stats.record(Operation::ToFahrenheit);
    }
    assert_eq!(stats.count(Operation::ToFahrenheit), 1000);
    assert_eq!(stats.count(Operation::ToCelcius), 0);
}

#[test]
fn counters_increment_one_operation() {
    let mut c = Counters::zero();
    c.increment(Operation::ToCelcius);
    assert_eq!(c.count(Operation::ToCelcius), 1);
    assert_eq!(c.count(Operation::ToFahrenheit), 0);
}

#[test]
fn default_counters_are_zero() {
    let c = Counters::default();
    assert_eq!(c.count(Operation::ToFahrenheit), 0);
}
