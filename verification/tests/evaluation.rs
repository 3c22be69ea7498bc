use stream_catalog::alert_state::{condition_met, outcome_of, rolling_window, EvalOutcome};
use stream_catalog::alerts::{
    AggregateConfig, AggregateFunction, Aggregates, AlertConfig, AlertOperator, AlertRequest,
    AlertType, EvalConfig, LogicalOperator, RollingWindow, Severity,
};
use stream_catalog::snapshot::{ManifestItem, Snapshot};
use stream_catalog::timefilter::TimeRange;

#[test]
fn window_ends_now_and_reaches_back() {
    assert_eq!(rolling_window(1_000_000, 300_000), TimeRange { start: 700_000, end: 1_000_000 });
    assert_eq!(rolling_window(5, 0), TimeRange { start: 5, end: 5 });
    assert_eq!(rolling_window(5, 10), TimeRange { start: -5, end: 5 });
}

#[test]
fn window_stops_at_the_first_instant() {
    assert_eq!(rolling_window(0, u64::MAX), TimeRange { start: i64::MIN, end: 0 });
    assert_eq!(
        rolling_window(i64::MAX, u64::MAX),
        TimeRange { start: i64::MIN, end: i64::MAX }
    );
    assert_eq!(
        rolling_window(i64::MIN, 1),
        TimeRange { start: i64::MIN, end: i64::MIN }
    );
    assert_eq!(
        rolling_window(-1, i64::MAX as u64),
        TimeRange { start: i64::MIN, end: -1 }
    );
    assert_eq!(
        rolling_window(0, i64::MAX as u64),
        TimeRange { start: i64::MIN + 1, end: 0 }
    );
}

#[test]
fn condition_of_one_or_two_aggregates() {
    assert_eq!(condition_met(None, &vec![true]), Some(true));
    assert_eq!(condition_met(None, &vec![false]), Some(false));
    assert_eq!(condition_met(None, &vec![]), None);
    assert_eq!(condition_met(None, &vec![true, true]), None);
    let and = Some(LogicalOperator::And);
    let or = Some(LogicalOperator::Or);
    assert_eq!(condition_met(and, &vec![true, true]), Some(true));
    assert_eq!(condition_met(and, &vec![true, false]), Some(false));
    assert_eq!(condition_met(and, &vec![false, true]), Some(false));
    assert_eq!(condition_met(or, &vec![false, true]), Some(true));
    assert_eq!(condition_met(or, &vec![true, false]), Some(true));
    assert_eq!(condition_met(or, &vec![false, false]), Some(false));
    assert_eq!(condition_met(and, &vec![true]), None);
    assert_eq!(condition_met(or, &vec![true, true, true]), None);
}

#[test]
fn outcome_of_an_evaluation() {
    assert_eq!(outcome_of(Some(true)), EvalOutcome::Satisfied);
    assert_eq!(outcome_of(Some(false)), EvalOutcome::NotSatisfied);
    assert_eq!(outcome_of(None), EvalOutcome::Failed);
}

#[test]
fn query_over_the_stream_of_an_alert() {
    let alert = AlertConfig::from_request(
        1,
        AlertRequest {
            severity: Severity::Low,
            title: "t".to_string(),
            stream: "backend".to_string(),
            alert_type: AlertType::Threshold,
            aggregates: Aggregates {
                operator: None,
                aggregate_config: vec![AggregateConfig {
                    aggregate_function: AggregateFunction::Sum,
                    conditions: None,
                    group_by: None,
                    column: "bytes".to_string(),
                    operator: AlertOperator::LessThan,
                    value_bits: 0,
                }],
            },
            eval_config: EvalConfig::RollingWindow(RollingWindow {
                eval_start: "5m".to_string(),
                eval_end: "now".to_string(),
                eval_frequency: 1,
            }),
            targets: vec![],
        },
    );
    assert_eq!(alert.select_query(), "SELECT * FROM backend");
}

fn snapshot_of(items: &[(&str, i64, i64)]) -> Snapshot {
    let mut snapshot = Snapshot::default();
    for (path, lower, upper) in items {
        snapshot.add_manifest(ManifestItem::new(path.to_string(), *lower, *upper).unwrap());
    }
    snapshot
}

#[test]
fn snapshots_are_compared_without_regard_to_order() {
    let a = snapshot_of(&[("x", 0, 9), ("y", 10, 19), ("x", 0, 9)]);
    let b = snapshot_of(&[("x", 0, 9), ("x", 0, 9), ("y", 10, 19)]);
    let c = snapshot_of(&[("x", 0, 9), ("y", 10, 19), ("y", 10, 19)]);
    let d = snapshot_of(&[("x", 0, 9), ("y", 10, 19)]);
    let e = snapshot_of(&[("x", 0, 9), ("y", 10, 20), ("x", 0, 9)]);
    assert!(a.has_same_references(&b));
    assert!(b.has_same_references(&a));
    assert!(a.has_same_references(&a));
    assert!(!a.has_same_references(&c));
    assert!(!a.has_same_references(&d));
    assert!(!d.has_same_references(&a));
    assert!(!a.has_same_references(&e));
    assert!(Snapshot::default().has_same_references(&Snapshot::default()));
    assert!(!Snapshot::default().has_same_references(&d));
    assert_eq!(a.count_of(&a.manifest_list[0]), 2);
    assert_eq!(a.count_of(&a.manifest_list[1]), 1);
    assert_eq!(d.count_of(&e.manifest_list[1]), 0);
}

#[test]
fn sorted_view_holds_the_same_references() {
    let a = snapshot_of(&[("p", 7, 8), ("q", 3, 4), ("r", 7, 9), ("s", 1, 2)]);
    let mut sorted = Snapshot::default();
    for item in a.sorted_by_lower_bound() {
        sorted.add_manifest(item);
    }
    assert!(a.has_same_references(&sorted));
    let order: Vec<&str> = sorted.manifest_list.iter().map(|m| m.manifest_path.as_str()).collect();
    assert_eq!(order, vec!["s", "q", "p", "r"]);
}
