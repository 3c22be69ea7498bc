use stream_catalog::alert_rules::{
    count_digits, read_window_length, window_millis_of, AlertError, MAX_DURATION_DIGITS,
};
use stream_catalog::alert_state::{get_alerts_info, on_tick, Alerts, EvalOutcome, TickAction};
use stream_catalog::alerts::{
    AggregateConfig, AggregateFunction, Aggregates, AlertConfig, AlertOperator, AlertRequest,
    AlertState, AlertType, AlertVerison, ConditionConfig, Conditions, EvalConfig, LogicalOperator,
    Retry, RollingWindow, Severity, Target, TargetKind, Timeout, WhereConfigOperator,
};
use stream_catalog::notify::{AlertInfo, Context, DeploymentInfo};

const MINUTE: u128 = 60_000_000_000;

fn condition(column: &str, operator: WhereConfigOperator, value: &str) -> ConditionConfig {
    ConditionConfig { column: column.to_string(), operator, value: value.to_string() }
}

fn aggregate(column: &str, conditions: Option<Conditions>) -> AggregateConfig {
    AggregateConfig {
        aggregate_function: AggregateFunction::Count,
        conditions,
        group_by: None,
        column: column.to_string(),
        operator: AlertOperator::GreaterThan,
        value_bits: 10.5f64.to_bits(),
    }
}

fn target(interval_minutes: u128, times: Retry) -> Target {
    Target {
        kind: TargetKind::Webhook,
        endpoint: "http://localhost/hook".to_string(),
        timeout: Timeout { interval_nanos: interval_minutes * MINUTE, times },
    }
}

fn request(eval_start: &str, eval_frequency: u64, targets: Vec<Target>) -> AlertRequest {
    AlertRequest {
        severity: Severity::High,
        title: "errors".to_string(),
        stream: "app".to_string(),
        alert_type: AlertType::Threshold,
        aggregates: Aggregates { operator: None, aggregate_config: vec![aggregate("status", None)] },
        eval_config: EvalConfig::RollingWindow(RollingWindow {
            eval_start: eval_start.to_string(),
            eval_end: "now".to_string(),
            eval_frequency,
        }),
        targets,
    }
}

fn alert(id: u128, eval_start: &str, eval_frequency: u64, targets: Vec<Target>) -> AlertConfig {
    AlertConfig::from_request(id, request(eval_start, eval_frequency, targets))
}

fn metadata_message(outcome: Result<(), AlertError>) -> Option<&'static str> {
    match outcome {
        Err(AlertError::Metadata(text)) => Some(text),
        _ => None,
    }
}

fn custom_message(outcome: Result<(), AlertError>) -> Option<String> {
    match outcome {
        Err(AlertError::CustomError(text)) => Some(text),
        _ => None,
    }
}

#[test]
fn finite_retries_longer_than_the_period_are_rejected() {
    let config = alert(1, "5m", 5, vec![target(2, Retry::Finite(5))]);
    let outcome = config.validate();
    assert_eq!(
        metadata_message(outcome),
        Some("evalFrequency should be greater than target repetition  interval")
    );
}

#[test]
fn finite_retries_within_the_period_are_accepted() {
    let config = alert(1, "5m", 5, vec![target(2, Retry::Finite(2))]);
    assert!(config.validate().is_ok());
}

#[test]
fn retries_that_fill_the_period_exactly_are_accepted() {
    let config = alert(1, "5m", 6, vec![target(2, Retry::Finite(3))]);
    assert!(config.validate().is_ok());
    let mut over = target(2, Retry::Finite(3));
    over.timeout.interval_nanos += 1;
    let config = alert(1, "5m", 6, vec![over]);
    assert!(config.validate().is_err());
}

#[test]
fn infinite_retries_are_not_held_to_the_period() {
    let config = alert(1, "5m", 1, vec![target(1000, Retry::Infinite)]);
    assert!(config.validate().is_ok());
    assert!(target(1000, Retry::Infinite).fits_frequency(0));
}

#[test]
fn huge_retry_products_are_rejected_without_overflow() {
    let mut big = target(1, Retry::Finite(usize::MAX));
    big.timeout.interval_nanos = u128::MAX;
    assert!(!big.fits_frequency(u64::MAX));
    assert!(target(0, Retry::Finite(usize::MAX)).fits_frequency(0));
}

#[test]
fn any_target_over_the_period_rejects_the_alert() {
    let config = alert(
        1,
        "5m",
        5,
        vec![target(1, Retry::Finite(1)), target(3, Retry::Finite(2)), target(1, Retry::Infinite)],
    );
    assert!(metadata_message(config.validate()).is_some());
}

#[test]
fn eval_start_must_be_a_duration() {
    let config = alert(1, "soon", 5, vec![target(2, Retry::Finite(5))]);
    assert_eq!(
        metadata_message(config.validate()),
        Some("evalStart should be of type humantime")
    );
    assert!(alert(1, "1hour 12min 5s", 5, vec![]).validate().is_ok());
    assert!(alert(1, "25m", 5, vec![]).validate().is_ok());
    assert!(alert(1, "", 5, vec![]).validate().is_err());
}

#[test]
fn validate_with_takes_the_verdict_on_eval_start_as_given() {
    let config = alert(1, "soon", 5, vec![]);
    assert!(config.validate_with(true).is_ok());
    assert_eq!(
        metadata_message(config.validate_with(false)),
        Some("evalStart should be of type humantime")
    );
}

#[test]
fn aggregates_must_be_as_many_as_the_operator_joins() {
    let mut config = alert(1, "5m", 5, vec![]);
    config.aggregates.aggregate_config.push(aggregate("level", None));
    assert_eq!(
        custom_message(config.validate()).as_deref(),
        Some("While not using AND/OR, one aggregateConditions must be used")
    );
    config.aggregates.operator = Some(LogicalOperator::And);
    assert!(config.validate().is_ok());
    config.aggregates.aggregate_config.pop();
    assert_eq!(
        custom_message(config.validate_configs()).as_deref(),
        Some("While using AND/OR, two aggregateConditions must be used")
    );
}

#[test]
fn conditions_must_be_as_many_as_the_operator_joins() {
    let one = condition("status", WhereConfigOperator::Equal, "500");
    let two = condition("level", WhereConfigOperator::Contains, "err");
    let mut config = alert(1, "5m", 5, vec![]);
    config.aggregates.aggregate_config[0].conditions =
        Some(Conditions { operator: Some(LogicalOperator::Or), condition_config: vec![one.clone()] });
    assert_eq!(
        custom_message(config.validate()).as_deref(),
        Some("While using AND/OR, two conditions must be used")
    );
    config.aggregates.aggregate_config[0].conditions =
        Some(Conditions { operator: None, condition_config: vec![one.clone(), two.clone()] });
    assert_eq!(
        custom_message(config.validate()).as_deref(),
        Some("While not using AND/OR, one conditions must be used")
    );
    config.aggregates.aggregate_config[0].conditions =
        Some(Conditions { operator: None, condition_config: vec![one.clone()] });
    assert!(config.validate().is_ok());
    config.aggregates.operator = Some(LogicalOperator::And);
    config.aggregates.aggregate_config.push(aggregate(
        "level",
        Some(Conditions { operator: None, condition_config: vec![] }),
    ));
    assert_eq!(
        custom_message(config.validate()).as_deref(),
        Some("While not using AND/OR, one conditions must be used")
    );
}

#[test]
fn errors_map_to_statuses() {
    assert_eq!(AlertError::Metadata("x").status_code(), 400);
    assert_eq!(AlertError::CustomError("x".into()).status_code(), 400);
    assert_eq!(AlertError::Unauthorized.status_code(), 400);
    assert_eq!(AlertError::Serde("x".into()).status_code(), 400);
    assert_eq!(AlertError::InvalidStateChange("x".into()).status_code(), 400);
    assert_eq!(AlertError::StreamNotFound("x".into()).status_code(), 404);
    assert_eq!(AlertError::ObjectStorage("x".into()).status_code(), 500);
    assert_eq!(AlertError::Error("x".into()).status_code(), 500);
    assert_eq!(AlertError::DatafusionError("x".into()).status_code(), 500);
    assert_eq!(AlertError::Anyhow("x".into()).status_code(), 500);
}

#[test]
fn resolved_alert_becomes_triggered_and_is_stored_before_notifying() {
    let plan = on_tick(AlertState::Resolved, false, EvalOutcome::Satisfied);
    assert_eq!(plan.next, AlertState::Triggered);
    assert_eq!(
        plan.actions,
        vec![TickAction::Persist(AlertState::Triggered), TickAction::Notify]
    );
    let mut table = Alerts::new();
    table.update(alert(7, "5m", 5, vec![target(1, Retry::Finite(1))]));
    for action in plan.actions {
        match action {
            TickAction::Persist(state) => table.update_state(7, state).unwrap(),
            TickAction::Notify => {
                // the delivery fails; nothing is done about the state
            }
        }
    }
    assert_eq!(table.get_state(7).unwrap(), AlertState::Triggered);
}

#[test]
fn tick_transitions() {
    let resolved = AlertState::Resolved;
    let silenced = AlertState::Silenced;
    let triggered = AlertState::Triggered;
    let cases = [
        (resolved, EvalOutcome::Satisfied, triggered, 2),
        (resolved, EvalOutcome::NotSatisfied, resolved, 0),
        (resolved, EvalOutcome::Failed, resolved, 0),
        (triggered, EvalOutcome::Satisfied, triggered, 0),
        (triggered, EvalOutcome::NotSatisfied, resolved, 1),
        (triggered, EvalOutcome::Failed, triggered, 0),
        (silenced, EvalOutcome::Satisfied, silenced, 0),
        (silenced, EvalOutcome::NotSatisfied, silenced, 0),
        (silenced, EvalOutcome::Failed, silenced, 0),
    ];
    for (state, outcome, next, steps) in cases {
        let plan = on_tick(state, false, outcome);
        assert_eq!(plan.next, next);
        assert_eq!(plan.actions.len(), steps);
    }
    let plan = on_tick(triggered, true, EvalOutcome::NotSatisfied);
    assert_eq!(plan.actions, vec![TickAction::Persist(resolved)]);
}

#[test]
fn silence_that_is_over_gives_way_to_the_condition() {
    let plan = on_tick(AlertState::Silenced, true, EvalOutcome::Satisfied);
    assert_eq!(plan.next, AlertState::Triggered);
    assert_eq!(
        plan.actions,
        vec![TickAction::Persist(AlertState::Triggered), TickAction::Notify]
    );
    let plan = on_tick(AlertState::Silenced, true, EvalOutcome::NotSatisfied);
    assert_eq!(plan.next, AlertState::Resolved);
    assert_eq!(plan.actions, vec![TickAction::Persist(AlertState::Resolved)]);
    let plan = on_tick(AlertState::Silenced, true, EvalOutcome::Failed);
    assert_eq!(plan.next, AlertState::Silenced);
    assert!(plan.actions.is_empty());
}

#[test]
fn new_alert_is_resolved_and_keeps_the_request() {
    let config = alert(42, "5m", 9, vec![target(1, Retry::Finite(1))]);
    assert_eq!(config.id, 42);
    assert_eq!(config.version, AlertVerison::V1);
    assert_eq!(config.state, AlertState::Resolved);
    assert_eq!(config.severity, Severity::High);
    assert_eq!(config.title, "errors");
    assert_eq!(config.stream, "app");
    assert_eq!(config.targets.len(), 1);
    assert_eq!(config.get_eval_frequency(), 9);
    assert_eq!(AlertState::default(), AlertState::Resolved);
    assert_eq!(Severity::default(), Severity::Medium);
    assert_eq!(AlertVerison::from("v1"), AlertVerison::V1);
}

#[test]
fn modify_takes_the_request_and_resets_the_state() {
    let mut config = alert(42, "5m", 9, vec![]);
    config.state = AlertState::Triggered;
    let mut change = request("10m", 3, vec![target(1, Retry::Infinite)]);
    change.title = "renamed".to_string();
    change.stream = "other".to_string();
    change.severity = Severity::Low;
    config.modify(change);
    assert_eq!(config.id, 42);
    assert_eq!(config.title, "renamed");
    assert_eq!(config.stream, "other");
    assert_eq!(config.severity, Severity::High);
    assert_eq!(config.state, AlertState::Resolved);
    assert_eq!(config.get_eval_frequency(), 3);
    assert_eq!(config.targets.len(), 1);
}

#[test]
fn operators_are_written_and_read_back() {
    let all = [
        (WhereConfigOperator::Equal, "="),
        (WhereConfigOperator::NotEqual, "!="),
        (WhereConfigOperator::LessThan, "<"),
        (WhereConfigOperator::GreaterThan, ">"),
        (WhereConfigOperator::LessThanOrEqual, "<="),
        (WhereConfigOperator::GreaterThanOrEqual, ">="),
        (WhereConfigOperator::IsNull, "is null"),
        (WhereConfigOperator::IsNotNull, "is not null"),
        (WhereConfigOperator::ILike, "ilike"),
        (WhereConfigOperator::Contains, "contains"),
        (WhereConfigOperator::BeginsWith, "begins with"),
        (WhereConfigOperator::EndsWith, "ends with"),
        (WhereConfigOperator::DoesNotContain, "does not contain"),
        (WhereConfigOperator::DoesNotBeginWith, "does not begin with"),
        (WhereConfigOperator::DoesNotEndWith, "does not end with"),
    ];
    for (operator, text) in all {
        assert_eq!(operator.as_str(), text);
        assert_eq!(WhereConfigOperator::from_str(text), Some(operator));
    }
    assert_eq!(WhereConfigOperator::from_str("=="), None);
    assert_eq!(WhereConfigOperator::from_str(""), None);
    assert_eq!(WhereConfigOperator::from_str("IS NULL"), None);
    assert_eq!(WhereConfigOperator::from_str(" = "), None);
}

#[test]
fn names_of_enums() {
    assert_eq!(AlertOperator::GreaterThan.as_str(), ">");
    assert_eq!(AlertOperator::LessThan.as_str(), "<");
    assert_eq!(AlertOperator::Equal.as_str(), "=");
    assert_eq!(AlertOperator::NotEqual.as_str(), "!=");
    assert_eq!(AlertOperator::GreaterThanOrEqual.as_str(), ">=");
    assert_eq!(AlertOperator::LessThanOrEqual.as_str(), "<=");
    assert_eq!(AlertOperator::IsNull.as_str(), "is null");
    assert_eq!(AlertOperator::IsNotNull.as_str(), "is not null");
    assert_eq!(AggregateFunction::Avg.as_str(), "Avg");
    assert_eq!(AggregateFunction::Count.as_str(), "Count");
    assert_eq!(AggregateFunction::Min.as_str(), "Min");
    assert_eq!(AggregateFunction::Max.as_str(), "Max");
    assert_eq!(AggregateFunction::Sum.as_str(), "Sum");
    assert_eq!(AlertState::Triggered.as_str(), "Triggered");
    assert_eq!(AlertState::Silenced.as_str(), "Silenced");
    assert_eq!(AlertState::Resolved.as_str(), "Resolved");
    assert_eq!(Severity::Critical.as_str(), "Critical (P0)");
    assert_eq!(Severity::High.as_str(), "High (P1)");
    assert_eq!(Severity::Medium.as_str(), "Medium (P2)");
    assert_eq!(Severity::Low.as_str(), "Low (P3)");
}

#[test]
fn filter_message_of_one_and_of_two_conditions() {
    let one = condition("status", WhereConfigOperator::Equal, "500");
    let two = condition("level", WhereConfigOperator::DoesNotContain, "debug");
    let single = Conditions { operator: None, condition_config: vec![one.clone()] };
    assert_eq!(single.generate_filter_message(), "[status = 500]");
    let joined = Conditions {
        operator: Some(LogicalOperator::Or),
        condition_config: vec![one, two],
    };
    assert_eq!(
        joined.generate_filter_message(),
        "[status = 500 AND level does not contain debug]"
    );
}

#[test]
fn columns_of_an_alert() {
    let one = condition("status", WhereConfigOperator::Equal, "500");
    let two = condition("level", WhereConfigOperator::Contains, "err");
    let mut config = alert(1, "5m", 5, vec![]);
    let columns = config.get_agg_config_cols();
    assert_eq!(columns.len(), 1);
    assert!(columns.contains("status"));
    config.aggregates.operator = Some(LogicalOperator::And);
    config.aggregates.aggregate_config[0].conditions = Some(Conditions {
        operator: Some(LogicalOperator::And),
        condition_config: vec![one, two],
    });
    config.aggregates.aggregate_config.push(aggregate(
        "bytes",
        Some(Conditions {
            operator: None,
            condition_config: vec![condition("host", WhereConfigOperator::Equal, "a")],
        }),
    ));
    let columns = config.get_agg_config_cols();
    assert_eq!(columns.len(), 3);
    assert!(columns.contains("status"));
    assert!(columns.contains("bytes"));
    assert!(columns.contains("level"));
    assert!(!columns.contains("host"));
}

#[test]
fn retry_policy() {
    assert!(Retry::Infinite.allows(usize::MAX));
    assert!(Retry::Finite(2).allows(0));
    assert!(Retry::Finite(2).allows(1));
    assert!(!Retry::Finite(2).allows(2));
    assert!(!Retry::Finite(0).allows(0));
}

#[test]
fn table_of_alerts() {
    let mut table = Alerts::new();
    table.update(alert(1, "5m", 5, vec![]));
    table.update(alert(2, "5m", 6, vec![]));
    assert_eq!(table.alerts.len(), 2);
    assert_eq!(table.position(2), Some(1));
    assert_eq!(table.position(3), None);
    assert_eq!(table.get_alert_by_id(2).unwrap().get_eval_frequency(), 6);
    table.update(alert(1, "5m", 7, vec![]));
    assert_eq!(table.alerts.len(), 2);
    assert_eq!(table.alerts[0].id, 1);
    assert_eq!(table.get_alert_by_id(1).unwrap().get_eval_frequency(), 7);
    table.update_state(2, AlertState::Silenced).unwrap();
    assert_eq!(table.get_state(2).unwrap(), AlertState::Silenced);
    assert_eq!(table.get_state(1).unwrap(), AlertState::Resolved);
    assert_eq!(table.alerts[1].id, 2);
    assert_eq!(table.alerts[1].get_eval_frequency(), 6);
    assert!(table.delete(1));
    assert!(!table.delete(1));
    assert_eq!(table.alerts.len(), 1);
    assert_eq!(table.alerts[0].id, 2);
}

#[test]
fn missing_alert_is_reported_with_its_ulid() {
    let mut table = Alerts::new();
    table.update(alert(1, "5m", 5, vec![]));
    match table.get_alert_by_id(0) {
        Err(AlertError::CustomError(text)) => {
            assert_eq!(text, "No alert found for the given ID- 00000000000000000000000000")
        }
        _ => panic!("an alert was found"),
    }
    match table.get_state(33) {
        Err(AlertError::CustomError(text)) => {
            assert_eq!(text, "No alert present for ID- 00000000000000000000000011")
        }
        _ => panic!("a state was found"),
    }
    match table.update_state(u128::MAX, AlertState::Triggered) {
        Err(AlertError::CustomError(text)) => {
            assert_eq!(text, "No alert found for the given ID- 7ZZZZZZZZZZZZZZZZZZZZZZZZZ")
        }
        _ => panic!("a state was set"),
    }
    assert_eq!(table.alerts.len(), 1);
    assert_eq!(table.alerts[0].state, AlertState::Resolved);
}

#[test]
fn alerts_are_listed_for_the_streams_a_user_may_query() {
    let mut table = Alerts::new();
    let mut a = alert(1, "5m", 5, vec![]);
    a.stream = "app".to_string();
    let mut b = alert(2, "5m", 5, vec![]);
    b.stream = "db".to_string();
    let mut c = alert(3, "5m", 5, vec![]);
    c.stream = "app".to_string();
    table.update(a);
    table.update(b);
    table.update(c);
    let ids: Vec<u128> = table
        .list_alerts_for_user(&vec!["web".to_string(), "app".to_string()])
        .iter()
        .map(|a| a.id)
        .collect();
    assert_eq!(ids, vec![1, 3]);
    assert!(table.list_alerts_for_user(&Vec::new()).is_empty());
}

#[test]
fn alerts_are_counted_by_state_and_severity() {
    let mut table = Alerts::new();
    let states = [
        (AlertState::Triggered, Severity::Critical),
        (AlertState::Triggered, Severity::Low),
        (AlertState::Silenced, Severity::Low),
        (AlertState::Resolved, Severity::Medium),
        (AlertState::Resolved, Severity::High),
        (AlertState::Resolved, Severity::Low),
    ];
    for (i, (state, severity)) in states.into_iter().enumerate() {
        let mut a = alert(i as u128, "5m", 5, vec![]);
        a.state = state;
        a.severity = severity;
        table.update(a);
    }
    let info = get_alerts_info(&table);
    assert_eq!(
        (info.total, info.silenced, info.resolved, info.triggered),
        (6, 1, 3, 2)
    );
    assert_eq!((info.low, info.medium, info.high, info.critical), (3, 1, 1, 1));
    let none = get_alerts_info(&Alerts::new());
    assert_eq!((none.total, none.triggered, none.low), (0, 0, 0));
}

fn deployment() -> DeploymentInfo {
    DeploymentInfo::new("http://0.0.0.0:8000".to_string(), 9, "All".to_string())
}

#[test]
fn notification_texts() {
    let context = Context::new(
        AlertInfo::new(1, "errors".to_string(), AlertState::Triggered, "High (P1)".to_string()),
        deployment(),
        "count > 10".to_string(),
    );
    assert_eq!(
        context.default_alert_string("2024-01-15T10:30:00+00:00"),
        "AlertName: errors, Triggered TimeStamp: 2024-01-15T10:30:00+00:00, Severity: High (P1), Message: count > 10"
    );
    assert_eq!(context.default_resolved_string(), "errors is now resolved ");
    assert_eq!(
        context.default_silenced_string(),
        "Notifications for errors have been silenced "
    );
}

#[test]
fn one_context_for_each_target() {
    let mut config = alert(
        5,
        "5m",
        5,
        vec![target(1, Retry::Finite(1)), target(1, Retry::Infinite)],
    );
    config.state = AlertState::Triggered;
    let empty = config.get_context(deployment());
    assert_eq!(empty.message, "");
    assert_eq!(empty.alert_info.alert_id, 5);
    assert_eq!(empty.alert_info.severity, "High (P1)");
    let contexts = config.trigger_notifications(deployment(), "too many".to_string());
    assert_eq!(contexts.len(), 2);
    for context in contexts {
        assert_eq!(context.message, "too many");
        assert_eq!(context.alert_info.alert_name, "errors");
        assert_eq!(context.alert_info.alert_state, AlertState::Triggered);
        assert_eq!(context.deployment_info.deployment_id, 9);
        assert_eq!(context.deployment_info.deployment_mode, "All");
    }
}

#[test]
fn window_length_is_read_in_nanoseconds() {
    assert_eq!(read_window_length("5m"), Some(300_000_000_000));
    assert_eq!(read_window_length("1hour 12min 5s"), Some(4_325_000_000_000));
    assert_eq!(read_window_length("1500ms"), Some(1_500_000_000));
    assert_eq!(read_window_length("0"), Some(0));
    assert_eq!(read_window_length("soon"), None);
    assert_eq!(read_window_length(""), None);
    assert_eq!(read_window_length("5"), None);
}

#[test]
fn window_with_too_many_digits_is_not_read() {
    assert_eq!(MAX_DURATION_DIGITS, 11);
    assert_eq!(count_digits("1hour 12min 5s"), 4);
    assert_eq!(count_digits(""), 0);
    assert_eq!(count_digits("٣5x"), 1);
    assert_eq!(read_window_length("99999999999s"), Some(99_999_999_999_000_000_000));
    assert_eq!(read_window_length("100000000000s"), None);
    assert_eq!(read_window_length("18446744073709551615s 1000000000ns"), None);
    assert_eq!(read_window_length("1s 1s 1s 1s 1s 1s 1s 1s 1s 1s 1s"), Some(11_000_000_000));
    assert_eq!(read_window_length("1s 1s 1s 1s 1s 1s 1s 1s 1s 1s 1s 1s"), None);
    let config = alert(1, "18446744073709551615s 1000000000ns", 5, vec![]);
    assert_eq!(
        metadata_message(config.validate()),
        Some("evalStart should be of type humantime")
    );
    assert_eq!(config.window_millis(), 0);
}

#[test]
fn window_in_milliseconds() {
    assert_eq!(alert(1, "5m", 5, vec![]).window_millis(), 300_000);
    assert_eq!(alert(1, "1ms 999us", 5, vec![]).window_millis(), 1);
    assert_eq!(alert(1, "soon", 5, vec![]).window_millis(), 0);
    assert_eq!(window_millis_of(None), 0);
    assert_eq!(window_millis_of(Some(999_999)), 0);
    assert_eq!(window_millis_of(Some(1_000_000)), 1);
    assert_eq!(window_millis_of(Some(u128::MAX)), u64::MAX);
    assert_eq!(window_millis_of(Some(u64::MAX as u128 * 1_000_000)), u64::MAX);
    assert_eq!(window_millis_of(Some(u64::MAX as u128 * 1_000_000 - 1)), u64::MAX - 1);
}

#[test]
fn failed_store_leaves_the_table_and_sends_nothing() {
    let mut table = Alerts::new();
    table.update(alert(7, "5m", 5, vec![target(1, Retry::Finite(1))]));
    let outcome = table.commit_state(
        7,
        AlertState::Triggered,
        Some("too many".to_string()),
        Err("disk full".to_string()),
        deployment(),
    );
    match outcome {
        Err(AlertError::ObjectStorage(text)) => assert_eq!(text, "disk full"),
        _ => panic!("the change went through"),
    }
    assert_eq!(table.get_state(7).unwrap(), AlertState::Resolved);
    assert_eq!(table.alerts.len(), 1);
}

#[test]
fn stored_change_sets_the_state_and_gives_what_is_to_be_sent() {
    let mut table = Alerts::new();
    table.update(alert(6, "5m", 5, vec![]));
    table.update(alert(
        7,
        "5m",
        5,
        vec![target(1, Retry::Finite(1)), target(2, Retry::Infinite)],
    ));
    let contexts = table
        .commit_state(7, AlertState::Triggered, Some("too many".to_string()), Ok(()), deployment())
        .unwrap();
    assert_eq!(table.get_state(7).unwrap(), AlertState::Triggered);
    assert_eq!(table.get_state(6).unwrap(), AlertState::Resolved);
    assert_eq!(table.alerts[1].id, 7);
    assert_eq!(contexts.len(), 2);
    for context in &contexts {
        assert_eq!(context.message, "too many");
        assert_eq!(context.alert_info.alert_id, 7);
        assert_eq!(context.alert_info.alert_state, AlertState::Triggered);
        assert_eq!(context.alert_info.severity, "High (P1)");
        assert_eq!(context.deployment_info.deployment_id, 9);
    }
    let contexts =
        table.commit_state(7, AlertState::Resolved, None, Ok(()), deployment()).unwrap();
    assert!(contexts.is_empty());
    assert_eq!(table.get_state(7).unwrap(), AlertState::Resolved);
}

#[test]
fn change_of_a_missing_alert_is_reported_whatever_the_store_answered() {
    let mut table = Alerts::new();
    table.update(alert(7, "5m", 5, vec![]));
    for answer in [Ok(()), Err("disk full".to_string())] {
        match table.commit_state(1, AlertState::Triggered, None, answer, deployment()) {
            Err(AlertError::CustomError(text)) => {
                assert_eq!(text, "No alert found for the given ID- 00000000000000000000000001")
            }
            _ => panic!("the alert was found"),
        }
    }
    assert_eq!(table.get_state(7).unwrap(), AlertState::Resolved);
}
