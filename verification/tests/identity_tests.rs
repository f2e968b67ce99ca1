use webdesk::app_state::console_app;
use webdesk::identity::{cookie_count, identity_root, IdentityManager};

#[test]
fn data_dir_is_per_app() {
    let root = identity_root("/home/u/.local/share");
    assert_eq!(root, "/home/u/.local/share/WebDesk/identity");
    let im = IdentityManager::new(&root);
    let mut a = console_app();
    a.id = "app-1".into();
    let mut b = a.clone();
    b.id = "app-1-b".into();
    let d1 = im.data_dir(&a);
    let d2 = im.data_dir(&b);
    assert_ne!(d1, d2);
    assert!(d1.contains("app-"));
    assert!(d1.starts_with(im.base_dir()));
    assert_eq!(d1, "/home/u/.local/share/WebDesk/identity/app-1");
}

#[test]
fn cookie_count_counts_json_files() {
    let entries = vec![
        ("session.json".to_string(), true),
        ("persistent.json".to_string(), true),
        ("note.txt".to_string(), true),
        ("dir.json".to_string(), false),
        (".json".to_string(), true),
        ("a.JSON".to_string(), true),
    ];
    assert_eq!(cookie_count(&entries), 2);
    assert_eq!(cookie_count(&vec![]), 0);
}

#[test]
fn list_extensions_filters_missing_paths() {
    let im = IdentityManager::new("/id");
    let mut app = console_app();
    app.extensions = vec!["/tmp/webdesk-ext-1".into(), "C:/definitely/not/a/real/extension".into()];
    let list = im.list_extensions(&app, &vec![true, false]);
    assert_eq!(list.len(), 1);
    assert!(list[0].contains("webdesk-ext"));
}

#[test]
fn summary_collects_parts() {
    let im = IdentityManager::new("/id");
    let mut app = console_app();
    app.extensions = vec!["e1".into(), "e2".into()];
    let s = im.summary(&app, 3, &vec![false, true], true);
    assert_eq!(s.cookie_count, 3);
    assert_eq!(s.extensions, vec!["e2"]);
    assert!(s.has_secrets);
}
