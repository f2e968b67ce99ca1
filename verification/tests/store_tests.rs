use webdesk::store::AppStore;
use webdesk::types::{App, HookConfig, HookOptions, Injections, UiControls};

fn sample_app(name: &str) -> App {
    App {
        id: String::new(),
        name: name.into(),
        url: format!("https://{name}.example.com"),
        runtime_profile: "system".into(),
        close_action: "background".into(),
        hooks: HookConfig::default(),
        hook_options: HookOptions::default(),
        ui_controls: UiControls::default(),
        injections: Injections::default(),
        icon: String::new(),
        extensions: vec![],
        is_system: false,
        launch_on_boot: false,
        tags: vec![],
        created_at: String::new(),
        updated_at: String::new(),
    }
}

fn store() -> AppStore {
    AppStore::with_dir("cfg/WebDesk/config".to_string())
}

#[test]
fn create_assigns_id_and_times() {
    let s = store();
    let app = s.create(sample_app("GitHub"));
    assert_eq!(app.id.len(), 36);
    for (i, c) in app.id.chars().enumerate() {
        if [8, 13, 18, 23].contains(&i) {
            assert_eq!(c, '-');
        } else {
            assert!(c.is_ascii_hexdigit() && !c.is_ascii_uppercase());
        }
    }
    assert!(!app.created_at.is_empty());
    assert!(app.updated_at.starts_with("1970-01-01T00:00:00Z+"));
    assert_eq!(app.url, "https://GitHub.example.com");
    let mut keep = sample_app("K");
    keep.id = "mine".into();
    keep.created_at = "then".into();
    let kept = s.create(keep);
    assert_eq!(kept.id, "mine");
    assert_eq!(kept.created_at, "then");
}

#[test]
fn create_gives_distinct_ids() {
    let s = store();
    let a = s.create(sample_app("A"));
    let b = s.create(sample_app("B"));
    assert_ne!(a.id, b.id);
}

#[test]
fn update_preserves_unset_fields() {
    let s = store();
    let app = s.create(sample_app("Test"));
    let mut patch = app.clone();
    patch.name = "Renamed".into();
    patch.url = String::new();
    let updated = s.update(Some(app.clone()), patch).unwrap();
    assert_eq!(updated.name, "Renamed");
    assert_eq!(updated.url, app.url);
}

#[test]
fn update_missing_returns_none() {
    let s = store();
    let mut patch = sample_app("X");
    patch.id = "nope".into();
    assert!(s.update(None, patch).is_none());
}

#[test]
fn update_merge_rules() {
    let s = store();
    let mut existing = sample_app("E");
    existing.id = "e1".into();
    existing.created_at = "c".into();
    existing.hook_options.timeout_ms = 1234;
    existing.tags = vec!["old".into()];
    let mut patch = sample_app("");
    patch.url = String::new();
    patch.hook_options.timeout_ms = 0;
    patch.hook_options.blocking = false;
    patch.is_system = true;
    let m = s.update(Some(existing), patch).unwrap();
    assert_eq!(m.id, "e1");
    assert_eq!(m.created_at, "c");
    assert_eq!(m.name, "E");
    assert_eq!(m.hook_options.timeout_ms, 1234);
    assert!(!m.hook_options.blocking);
    assert!(m.is_system);
    assert_eq!(m.tags, vec!["old"]);
}

#[test]
fn sort_by_name_orders_by_string_order() {
    let apps = vec![sample_app("b"), sample_app("C"), sample_app("a")];
    let sorted = AppStore::sort_by_name(apps);
    let names: Vec<&str> = sorted.iter().map(|a| a.name.as_str()).collect();
    assert_eq!(names, vec!["C", "a", "b"]);
}

#[test]
fn store_keeps_its_dir() {
    assert_eq!(store().dir(), "cfg/WebDesk/config");
}

#[test]
fn path_for_names_the_json_file() {
    assert_eq!(store().path_for("abc"), "cfg/WebDesk/config/abc.json");
}
