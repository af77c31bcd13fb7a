use kaiyote::control::{control_status, handle_control, ControlOutcome};
use kaiyote::store::RuleStore;

fn params(pairs: &[(&str, &str)]) -> Vec<(String, String)> {
    pairs.iter().map(|(k, v)| (k.to_string(), v.to_string())).collect()
}

#[test]
fn block_stores_rule_and_confirms() {
    let mut store = RuleStore::new();
    let outcome = handle_control(&mut store, "block", &params(&[("route", "/api")]));
    match &outcome {
        ControlOutcome::Blocked { message } => {
            assert_eq!(message, "Route '/api' blocked");
        }
        _ => panic!("expected a Blocked outcome"),
    }
    assert_eq!(control_status(&outcome), 200);
    assert!(store.is_blocked("/api/users"));
    assert!(!store.is_blocked("/apiextra"));
}

#[test]
fn unblock_removes_rule_and_confirms() {
    let mut store = RuleStore::new();
    handle_control(&mut store, "block", &params(&[("route", "/api")]));
    let outcome = handle_control(&mut store, "unblock", &params(&[("route", "/api")]));
    match &outcome {
        ControlOutcome::Unblocked { message, existed } => {
            assert_eq!(message, "Route '/api' unblocked");
            assert!(existed);
        }
        _ => panic!("expected an Unblocked outcome"),
    }
    assert_eq!(control_status(&outcome), 200);
    assert!(!store.is_blocked("/api/users"));
}

#[test]
fn unblock_twice_reports_noop_second_time() {
    let mut store = RuleStore::new();
    handle_control(&mut store, "block", &params(&[("route", "/api")]));
    handle_control(&mut store, "unblock", &params(&[("route", "/api")]));
    let outcome = handle_control(&mut store, "unblock", &params(&[("route", "/api")]));
    match &outcome {
        ControlOutcome::Unblocked { message, existed } => {
            assert_eq!(message, "Route '/api' unblocked");
            assert!(!existed);
        }
        _ => panic!("expected an Unblocked outcome"),
    }
    assert_eq!(control_status(&outcome), 200);
}

#[test]
fn block_without_route_changes_nothing() {
    let mut store = RuleStore::new();
    let outcome = handle_control(&mut store, "block", &params(&[("other", "/api")]));
    assert!(matches!(outcome, ControlOutcome::MissingRoute));
    assert_eq!(control_status(&outcome), 400);
    assert!(!store.is_blocked("/api"));
}

#[test]
fn unblock_without_route_changes_nothing() {
    let mut store = RuleStore::new();
    handle_control(&mut store, "block", &params(&[("route", "/api")]));
    let outcome = handle_control(&mut store, "unblock", &params(&[]));
    assert!(matches!(outcome, ControlOutcome::MissingRoute));
    assert_eq!(control_status(&outcome), 400);
    assert!(store.is_blocked("/api"));
}

#[test]
fn unknown_command_changes_nothing() {
    let mut store = RuleStore::new();
    let outcome = handle_control(&mut store, "delay", &params(&[("route", "/api")]));
    assert!(matches!(outcome, ControlOutcome::UnknownCommand));
    assert_eq!(control_status(&outcome), 404);
    assert!(!store.is_blocked("/api"));
}

#[test]
fn route_parameter_found_among_others() {
    let mut store = RuleStore::new();
    let outcome = handle_control(
        &mut store,
        "block",
        &params(&[("x", "1"), ("route", "/api"), ("y", "2")]),
    );
    assert!(matches!(outcome, ControlOutcome::Blocked { .. }));
    assert!(store.is_blocked("/api/users"));
}
