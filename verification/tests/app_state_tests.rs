use webdesk::app_state::{console_app, get_app, has_console, AppState};
use webdesk::auth::AuthStore;
use webdesk::store::AppStore;

fn state() -> AppState {
    AppState::with_stores(
        AppStore::with_dir("config".to_string()),
        AuthStore::with_grants("grants.json".to_string(), Vec::new()),
    )
}

#[test]
fn marks_then_status() {
    let mut s = state();
    assert_eq!(s.app_status("a"), "stopped");
    assert!(!s.has_work());
    s.mark_running("a", "win-a", "running");
    assert_eq!(s.app_status("a"), "running");
    assert!(s.is_running("a"));
    s.mark_background("a");
    assert_eq!(s.app_status("a"), "background");
    assert!(s.has_background());
    s.mark_background("zz");
    assert_eq!(s.app_status("zz"), "stopped");
    s.mark_stopped("a");
    assert_eq!(s.app_status("a"), "stopped");
    assert!(!s.has_work());
}

#[test]
fn list_running_reports_entries() {
    let mut s = state();
    s.mark_running("a", "win-a", "running");
    s.mark_running("b", "win-b", "background");
    let l = s.list_running();
    assert_eq!(l.len(), 2);
    for st in &l {
        assert_eq!(st.window_id.as_deref(), Some(format!("win-{}", st.id).as_str()));
        assert!(st.memory_kb.is_none());
    }
    let mut ids = s.running_ids();
    ids.sort();
    assert_eq!(ids, vec!["a", "b"]);
    assert_eq!(s.running_count(), 2);
    assert!(s.has_work());
}

#[test]
fn console_seed_and_lookup() {
    let c = console_app();
    assert_eq!(c.id, "console");
    assert!(c.is_system);
    assert_eq!(c.url, "http://127.0.0.1:0");
    let apps = vec![c];
    assert!(has_console(&apps));
    assert_eq!(get_app(&apps, "console"), Some(0));
    assert_eq!(get_app(&apps, "x"), None);
    assert!(!has_console(&vec![]));
}

#[test]
fn console_app_fields() {
    let c = console_app();
    assert_eq!(c.name, "WebDesk 控制台");
    assert_eq!(c.runtime_profile, "system");
    assert_eq!(c.close_action, "background");
    assert_eq!(c.hook_options.shell, "cmd");
    assert_eq!(c.hook_options.timeout_ms, 30000);
    assert!(!c.launch_on_boot);
    assert!(c.icon.is_empty() && c.extensions.is_empty());
    assert_eq!(c.tags, vec!["system"]);
}

#[test]
fn seeding_is_idempotent() {
    use_seed();
}

fn use_seed() {
    let mut apps = Vec::new();
    let seeded = webdesk::app_state::console_to_seed(&apps).unwrap();
    assert_eq!(seeded.id, "console");
    apps.push(seeded);
    assert!(webdesk::app_state::console_to_seed(&apps).is_none());
}

#[test]
fn state_keeps_the_given_stores() {
    let mut s = state();
    assert_eq!(s.store.dir(), "config");
    assert_eq!(s.auth.path(), "grants.json");
    s.mark_running("a", "win-a", "running");
    s.mark_background("a");
    s.mark_stopped("a");
    assert_eq!(s.store.dir(), "config");
    assert_eq!(s.auth.path(), "grants.json");
}
