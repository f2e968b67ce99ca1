use webdesk::app_state::AppState;
use webdesk::auth::AuthStore;
use webdesk::platform::{
    file_name_char, launch_argument, sanitize_filename, shortcut_filename, taskbar_app_id, DesktopOs, TrayAction,
    TrayController, MENU_APP_PREFIX, MENU_QUIT_ALL, MENU_SHOW_MAIN,
};
use webdesk::store::AppStore;
use webdesk::types::App;

fn state_with_running(entries: Vec<(&str, &str)>) -> AppState {
    let store = AppStore::with_dir("config".to_string());
    let auth = AuthStore::with_grants("grants.json".to_string(), Vec::new());
    let mut s = AppState::with_stores(store, auth);
    for (id, status) in entries {
        s.mark_running(id, &format!("win-{id}"), status);
    }
    s
}

#[test]
fn parse_menu_id_routes_correctly() {
    assert_eq!(TrayController::parse_menu_id("show-main"), TrayAction::ShowMain);
    assert_eq!(
        TrayController::parse_menu_id("show-app:gmail"),
        TrayAction::ShowApp("gmail".into())
    );
    assert_eq!(TrayController::parse_menu_id("quit-all"), TrayAction::QuitAll);
    assert_eq!(TrayController::parse_menu_id("unknown"), TrayAction::Ignore);
    assert_eq!(TrayController::parse_menu_id("show-app:"), TrayAction::Ignore);
}

#[test]
fn build_menu_descriptor_layout() {
    let apps = vec![
        ("b".to_string(), "B应用".to_string()),
        ("a".to_string(), "A应用".to_string()),
    ];
    let items = TrayController::build_menu_descriptor(&apps);
    assert_eq!(items.len(), 6);
    assert_eq!(items[0].0, MENU_SHOW_MAIN);
    assert!(items.iter().any(|(id, _, _)| id == "show-app:a"));
    assert!(items.iter().any(|(id, _, _)| id == "show-app:b"));
    assert!(items.iter().any(|(id, _, _)| id == MENU_QUIT_ALL));

    let empty = TrayController::build_menu_descriptor(&vec![]);
    assert_eq!(empty.len(), 4);
    assert!(!empty.iter().any(|(id, _, _)| id.starts_with(MENU_APP_PREFIX)));
}

#[test]
fn menu_items_dispatch_back_to_their_apps() {
    let apps = vec![("x1".to_string(), "X".to_string())];
    let items = TrayController::build_menu_descriptor(&apps);
    for (id, _, enabled) in &items {
        if *enabled {
            assert_ne!(TrayController::parse_menu_id(id), TrayAction::Ignore);
        }
    }
    assert_eq!(TrayController::parse_menu_id(&items[2].0), TrayAction::ShowApp("x1".into()));
}

#[test]
fn has_background_apps_judges_by_status() {
    let s = state_with_running(vec![("a", "running")]);
    assert!(!TrayController::has_background_apps(&s));
    let s = state_with_running(vec![("a", "background")]);
    assert!(TrayController::has_background_apps(&s));
    let s = state_with_running(vec![("a", "running"), ("b", "background")]);
    assert!(TrayController::has_background_apps(&s));
    let s = state_with_running(vec![]);
    assert!(!TrayController::has_background_apps(&s));
}

#[test]
fn background_apps_collects_only_background() {
    let s = state_with_running(vec![("a", "running"), ("b", "background"), ("c", "background")]);
    let apps = TrayController::background_apps(&s, None);
    let ids: Vec<&str> = apps.iter().map(|(id, _)| id.as_str()).collect();
    assert!(ids.contains(&"b"));
    assert!(ids.contains(&"c"));
    assert!(!ids.contains(&"a"));
    assert_eq!(apps.len(), 2);
}

#[test]
fn background_apps_use_store_names_sorted() {
    let s = state_with_running(vec![("b", "background"), ("c", "background")]);
    let mut app_b = webdesk::app_state::console_app();
    app_b.id = "b".to_string();
    app_b.name = "Zeta".to_string();
    let mut app_c = app_b.clone();
    app_c.id = "c".to_string();
    app_c.name = "Alpha".to_string();
    let listing: Vec<App> = vec![app_b, app_c];
    let apps = TrayController::background_apps(&s, Some(&listing));
    assert_eq!(apps, vec![("c".to_string(), "Alpha".to_string()), ("b".to_string(), "Zeta".to_string())]);
}

#[test]
fn shortcut_filename_respects_platform() {
    let f = shortcut_filename("微信", DesktopOs::Windows);
    assert!(f.ends_with(".lnk"));
    let f = shortcut_filename("微信", DesktopOs::MacOs);
    assert!(f.ends_with(".alias"));
    let f = shortcut_filename("微信", DesktopOs::Linux);
    assert!(f.ends_with(".desktop"));
    assert!(f.starts_with("微信"));
}

#[test]
fn sanitize_filename_handles_bad_chars() {
    assert_eq!(sanitize_filename("a/b:c*d?e"), "a_b_c_d_e");
    assert_eq!(sanitize_filename("   "), "WebLaunch-App");
    assert_eq!(sanitize_filename("正常名"), "正常名");
    assert_eq!(sanitize_filename("a/b"), "a_b");
}

#[test]
fn sanitize_filename_is_idempotent_on_examples() {
    for s in ["a/b:c*d?e", "  x y  ", "", "正常名", "<>|"] {
        let once = sanitize_filename(s);
        assert_eq!(sanitize_filename(&once), once);
    }
}

#[test]
fn shortcut_launch_arg_format() {
    assert_eq!(launch_argument("a1"), "--launch=a1");
    assert_eq!(launch_argument("abc-123"), "--launch=abc-123");
}

#[test]
fn taskbar_identity_format() {
    assert_eq!(taskbar_app_id("gmail"), "WebLaunch.App.gmail");
}

#[test]
fn file_name_char_rule() {
    assert_eq!(file_name_char('é', true), 'é');
    assert_eq!(file_name_char('é', false), '_');
    assert_eq!(file_name_char('-', false), '-');
    assert_eq!(file_name_char('.', false), '.');
    assert_eq!(file_name_char(':', false), '_');
}

#[test]
fn sanitized_names_have_the_stated_shape() {
    for s in ["  a/b  ", "", "?*", "正常名.txt", " x "] {
        let r = sanitize_filename(s);
        assert!(!r.is_empty());
        assert!(!r.starts_with(char::is_whitespace) && !r.ends_with(char::is_whitespace));
        assert!(r.chars().all(|c| c.is_alphanumeric() || "-_ .".contains(c)));
    }
    assert_eq!(sanitize_filename("?*"), "__");
    assert_eq!(sanitize_filename(" "), "WebLaunch-App");
}

#[test]
fn background_apps_lists_each_app_once() {
    let mut s = state_with_running(vec![("b", "background"), ("c", "background")]);
    s.mark_running("b", "win-b", "background");
    s.mark_background("b");
    let apps = TrayController::background_apps(&s, None);
    assert_eq!(apps.len(), 2);
}

#[test]
fn blank_names_get_the_default() {
    assert_eq!(sanitize_filename(""), "WebLaunch-App");
    assert_eq!(sanitize_filename("    "), "WebLaunch-App");
}
