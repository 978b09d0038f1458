use worker_supervisor::errors::FailureKind;
use worker_supervisor::supervisor::{
    aggregate_spawn_errors, api_base_url, augment_search_path, build_spawn_spec, candidate_order,
    console_visible, worker_args, SpawnAttempt, Supervisor, WorkerState,
};

fn strings(v: &[&str]) -> Vec<String> {
    v.iter().map(|s| s.to_string()).collect()
}

#[test]
fn override_candidate_tried_first() {
    let bundled = strings(&["bundle/python.exe", "fallback/python.exe"]);
    let order = candidate_order(Some("override/python".to_string()), &bundled);
    assert_eq!(order, strings(&["override/python", "bundle/python.exe", "fallback/python.exe"]));
}

#[test]
fn no_override_keeps_bundled_order() {
    let bundled = strings(&["bundle/python.exe", "fallback/python.exe"]);
    assert_eq!(candidate_order(None, &bundled), bundled);
}

#[test]
fn spawn_spec_puts_override_before_bundled_runtime() {
    let s = build_spawn_spec(
        Some("env/override".to_string()),
        "app/python-runtime/python.exe".to_string(),
        "app/backend/main.py".to_string(),
        "app/backend".to_string(),
        9999,
        "app".to_string(),
    );
    assert_eq!(s.candidates, strings(&["env/override", "app/python-runtime/python.exe"]));
    assert_eq!(s.entry, "app/backend/main.py");
    assert_eq!(s.workdir, "app/backend");
    assert_eq!(s.port, 9999);
    assert_eq!(s.import_root, "app");
}

#[test]
fn spawn_spec_without_override() {
    let s = build_spawn_spec(
        None,
        "app/python-runtime/python.exe".to_string(),
        "app/backend/main.py".to_string(),
        "app/backend".to_string(),
        38081,
        "app".to_string(),
    );
    assert_eq!(s.candidates, strings(&["app/python-runtime/python.exe"]));
}

#[test]
fn worker_invocation_arguments() {
    let a = worker_args("app/backend/main.py", 38081);
    assert_eq!(a, strings(&["app/backend/main.py", "--port", "38081"]));
}

#[test]
fn search_path_is_extended_not_replaced() {
    assert_eq!(augment_search_path(Some("old/libs"), ";", "app"), "old/libs;app");
    assert_eq!(augment_search_path(Some("old/libs"), ":", "app"), "old/libs:app");
    assert_eq!(augment_search_path(None, ";", "app"), "app");
}

#[test]
fn api_base_url_uses_chosen_port() {
    assert_eq!(api_base_url(9999), "http://127.0.0.1:9999");
    assert_eq!(api_base_url(38081), "http://127.0.0.1:38081");
}

#[test]
fn spawn_report_aggregates_every_attempt() {
    let attempts = vec![
        SpawnAttempt { candidate: "env/override".to_string(), error: "not found".to_string() },
        SpawnAttempt { candidate: "bundle/python".to_string(), error: "denied".to_string() },
    ];
    assert_eq!(
        aggregate_spawn_errors(&attempts),
        "[env/override] not found; [bundle/python] denied; "
    );
    let none: Vec<SpawnAttempt> = Vec::new();
    assert_eq!(aggregate_spawn_errors(&none), "");
}

#[test]
fn termination_twice_kills_exactly_once() {
    let mut sup = Supervisor::new();
    sup.begin_spawn();
    sup.mark_running();
    sup.attach_guard();
    let first = sup.request_termination();
    let second = sup.request_termination();
    assert!(first);
    assert!(!second);
    assert_eq!(sup.state, WorkerState::Terminated);
    assert!(!sup.has_handle);
    assert!(sup.guard_attached);
}

#[test]
fn termination_without_running_worker_is_a_no_op() {
    let mut sup = Supervisor::new();
    sup.begin_spawn();
    sup.mark_failed();
    assert!(!sup.request_termination());
    assert_eq!(sup.state, WorkerState::Failed);
}

#[test]
fn guard_released_only_at_teardown() {
    let mut sup = Supervisor::new();
    sup.begin_spawn();
    sup.mark_running();
    sup.attach_guard();
    assert!(sup.guard_attached);
    sup.request_termination();
    assert!(sup.guard_attached);
    sup.teardown();
    assert!(!sup.guard_attached);
}

#[test]
fn console_visibility_rules() {
    assert!(console_visible(false, Some("1"), true));
    assert!(!console_visible(false, Some("0"), true));
    assert!(!console_visible(false, Some(""), true));
    assert!(!console_visible(false, None, true));
    assert!(console_visible(false, None, false));
    assert!(console_visible(false, Some("0"), false));
    assert!(console_visible(true, None, true));
    assert!(console_visible(true, Some("0"), true));
}

#[test]
fn fatal_failure_kinds() {
    assert!(FailureKind::PathResolution.is_fatal());
    assert!(FailureKind::Spawn.is_fatal());
    assert!(!FailureKind::OrphanGuard.is_fatal());
    assert!(!FailureKind::StreamDecode.is_fatal());
    assert!(!FailureKind::Termination.is_fatal());
}
