use webdesk::auth::{AuthStore, Grant};
use webdesk::server::{approve_step, exec_step, ExecStep};

fn empty_store() -> AuthStore {
    AuthStore::with_grants("grants.json".to_string(), Vec::new())
}

#[test]
fn check_no_grant_returns_none() {
    let a = empty_store();
    assert!(a.check("app1", "explorer.exe C:/x").is_none());
}

#[test]
fn record_then_check_returns_allowed() {
    let mut a = empty_store();
    a.record("app1", "explorer.exe C:/x", true);
    let d = a.check("app1", "explorer.exe C:/x").unwrap();
    assert!(d.allowed);
    assert!(d.remembered);
}

#[test]
fn key_is_app_scoped() {
    assert_ne!(AuthStore::key("a", "cmd"), AuthStore::key("b", "cmd"));
    assert_eq!(AuthStore::key("a", "x"), AuthStore::key("a", "x"));
}

#[test]
fn key_joins_app_and_command_with_nul() {
    assert_eq!(AuthStore::key("a", "cmd"), "a\0cmd");
}

#[test]
fn record_refusal_is_remembered_per_app() {
    let mut a = empty_store();
    a.record("app1", "rm x", false);
    let d = a.check("app1", "rm x").unwrap();
    assert!(!d.allowed);
    assert!(d.remembered);
    assert!(a.check("app2", "rm x").is_none());
    assert!(a.check("app1", "rm y").is_none());
}

#[test]
fn record_twice_keeps_one_grant_with_last_decision() {
    let mut a = empty_store();
    a.record("app1", "cmd", true);
    a.record("app1", "cmd", false);
    assert_eq!(a.grant_count(), 1);
    assert!(!a.check("app1", "cmd").unwrap().allowed);
}

#[test]
fn loaded_grants_are_found_by_key() {
    let g = Grant {
        app_id: "app1".to_string(),
        command: "ls".to_string(),
        allow: true,
        remember: true,
        granted_at: "t".to_string(),
    };
    let a = AuthStore::with_grants("p.json".to_string(), vec![(AuthStore::key("app1", "ls"), g)]);
    assert_eq!(a.path(), "p.json");
    assert!(a.check("app1", "ls").unwrap().allowed);
}

#[test]
fn exec_flow_asks_then_remembers() {
    let mut a = empty_store();
    assert_eq!(exec_step(&a, "app1", "notepad"), ExecStep::AskUser);
    assert_eq!(approve_step(&mut a, "app1", "notepad", true, true), ExecStep::Run);
    assert_eq!(exec_step(&a, "app1", "notepad"), ExecStep::Run);
    assert_eq!(approve_step(&mut a, "app1", "calc", false, true), ExecStep::RefusedByUser);
    assert_eq!(exec_step(&a, "app1", "calc"), ExecStep::RefusedByGrant);
}

#[test]
fn approve_without_remember_asks_again() {
    let mut a = empty_store();
    assert_eq!(approve_step(&mut a, "app1", "notepad", true, false), ExecStep::Run);
    assert_eq!(exec_step(&a, "app1", "notepad"), ExecStep::AskUser);
    assert_eq!(a.grant_count(), 0);
}
