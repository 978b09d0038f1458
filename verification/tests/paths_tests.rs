use worker_supervisor::errors::FailureKind;
use worker_supervisor::paths::{
    artifact_candidates, first_existing, join_path, parent_dir, resolve_artifact, resolve_paths,
    resolve_worker, search_dirs, Candidate,
};

#[test]
fn join_path_inserts_separator() {
    assert_eq!(join_path("a", "b"), "a/b");
    assert_eq!(join_path("", "b"), "/b");
}

#[test]
fn resolve_paths_bundled_layout() {
    let (runtime, entry, workdir) = resolve_paths("app");
    assert_eq!(runtime, "app/python-runtime/python.exe");
    assert_eq!(entry, "app/backend/main.py");
    assert_eq!(workdir, "app/backend");
}

#[test]
fn parent_dir_takes_last_separator() {
    assert_eq!(parent_dir("a/b/c"), Some("a/b".to_string()));
    assert_eq!(parent_dir("a/b"), Some("a".to_string()));
    assert_eq!(parent_dir("noslash"), None);
    assert_eq!(parent_dir("/x"), Some("".to_string()));
}

#[test]
fn search_dirs_priority_order() {
    let dirs = search_dirs("exe", "res/dir", "w/x/y");
    let expect: Vec<String> = ["exe", "res/dir", "res", "w/x/y", "w/x", "w"]
        .iter()
        .map(|s| s.to_string())
        .collect();
    assert_eq!(dirs, expect);
}

#[test]
fn artifact_candidates_join_each_dir() {
    let dirs: Vec<String> = ["a", "b/c"].iter().map(|s| s.to_string()).collect();
    let c = artifact_candidates(&dirs, "backend/main.py");
    let expect: Vec<String> = ["a/backend/main.py", "b/c/backend/main.py"]
        .iter()
        .map(|s| s.to_string())
        .collect();
    assert_eq!(c, expect);
}

fn cand(path: &str, exists: bool) -> Candidate {
    Candidate { path: path.to_string(), exists }
}

#[test]
fn resolver_returns_highest_priority_existing_match() {
    let tiers = vec![
        cand("tier1/main.py", false),
        cand("tier2/main.py", false),
        cand("tier3/main.py", true),
        cand("tier4/main.py", true),
    ];
    assert_eq!(first_existing(&tiers), Some(2));
    assert_eq!(resolve_artifact(&tiers), Ok("tier3/main.py".to_string()));
}

#[test]
fn moving_artifact_to_higher_tier_changes_selection() {
    let lower_only = vec![cand("tier1/main.py", false), cand("tier3/main.py", true)];
    assert_eq!(resolve_artifact(&lower_only), Ok("tier3/main.py".to_string()));
    let moved_up = vec![cand("tier1/main.py", true), cand("tier3/main.py", true)];
    assert_eq!(resolve_artifact(&moved_up), Ok("tier1/main.py".to_string()));
}

#[test]
fn resolve_worker_picks_both_artifacts_and_workdir() {
    let runtime_cands = vec![
        cand("exe/python-runtime/python.exe", false),
        cand("res/python-runtime/python.exe", true),
    ];
    let entry_cands = vec![
        cand("exe/backend/main.py", true),
        cand("res/backend/main.py", true),
    ];
    let w = resolve_worker(&runtime_cands, &entry_cands).unwrap();
    assert_eq!(w.runtime, "res/python-runtime/python.exe");
    assert_eq!(w.entry, "exe/backend/main.py");
    assert_eq!(w.workdir, "exe/backend");
}

#[test]
fn resolve_worker_fails_without_either_artifact() {
    let present = vec![cand("exe/backend/main.py", true)];
    let absent = vec![cand("exe/python-runtime/python.exe", false)];
    assert!(matches!(resolve_worker(&absent, &present), Err(FailureKind::PathResolution)));
    assert!(matches!(resolve_worker(&present, &absent), Err(FailureKind::PathResolution)));
}

#[test]
fn resolver_fails_when_nothing_exists() {
    let tiers = vec![cand("tier1/main.py", false), cand("tier2/main.py", false)];
    assert_eq!(first_existing(&tiers), None);
    assert_eq!(resolve_artifact(&tiers), Err(FailureKind::PathResolution));
    let empty: Vec<Candidate> = Vec::new();
    assert_eq!(resolve_artifact(&empty), Err(FailureKind::PathResolution));
}
