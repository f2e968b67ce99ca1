use webdesk::app_state::{console_app, AppState};
use webdesk::auth::AuthStore;
use webdesk::json::Json;
use webdesk::server::{
    api_config_from_json, api_config_json, app_status_snapshot, command_of, console_url,
    delete_refusal, delete_step, flag_of, launch_target, platform_status, shortcut_icon, split_command,
    split_words, startup_target, token_from_seed, update_patch, ApiConfigSlot, DeleteStep,
};
use webdesk::store::AppStore;
use webdesk::types::{ApiConfig, AppStatus};

fn obj(entries: Vec<(&str, Json)>) -> Json {
    Json::Object(entries.into_iter().map(|(k, v)| (k.to_string(), v)).collect())
}

fn s(v: &str) -> Json {
    Json::Str(v.to_string())
}

fn args(v: &[&str]) -> Vec<String> {
    v.iter().map(|a| a.to_string()).collect()
}

fn reference_token(nanos: u128, pid: u32) -> String {
    let seed = format!("{nanos:x}-{pid:x}");
    let mut out = String::new();
    for i in 0..32 {
        let c = seed.as_bytes()[i % seed.len()];
        let v = c.wrapping_add((i as u8).wrapping_mul(7));
        out.push_str(&format!("{v:02x}"));
    }
    out
}

#[test]
fn token_matches_the_seeded_hash() {
    for (n, p) in [(0u128, 0u32), (1_700_000_000_123_456_789, 4242), (u128::MAX, u32::MAX)] {
        let t = token_from_seed(n, p);
        assert_eq!(t, reference_token(n, p));
        assert_eq!(t.len(), 64);
        assert!(t.chars().all(|c| c.is_ascii_hexdigit() && !c.is_ascii_uppercase()));
    }
}

#[test]
fn api_config_roundtrip() {
    let cfg = ApiConfig { port: 3070, token: "abc".to_string() };
    let j = api_config_json(&cfg);
    let back = api_config_from_json(&j).unwrap();
    assert_eq!(back.port, 3070);
    assert_eq!(back.token, "abc");
}

#[test]
fn api_config_read_rules() {
    let j = obj(vec![("port", Json::Number(Some(70000))), ("token", s("t"))]);
    assert_eq!(api_config_from_json(&j).unwrap().port, 4464);
    assert!(api_config_from_json(&obj(vec![("port", Json::Number(Some(1)))])).is_none());
    assert!(api_config_from_json(&obj(vec![("port", s("1")), ("token", s("t"))])).is_none());
}

#[test]
fn api_config_slot_keeps_first() {
    let mut slot = ApiConfigSlot::new();
    assert!(slot.api_config().is_none());
    let placeholder = slot.get_api_config();
    assert_eq!(placeholder.port, 0);
    assert_eq!(placeholder.token, "");
    assert!(slot.set_api_config(ApiConfig { port: 3070, token: "a".into() }));
    assert!(!slot.set_api_config(ApiConfig { port: 1, token: "b".into() }));
    assert_eq!(slot.api_config().unwrap().port, 3070);
    assert_eq!(slot.get_api_config().token, "a");
}

#[test]
fn console_url_uses_port() {
    assert_eq!(console_url(3070), "http://127.0.0.1:3070");
}

#[test]
fn launch_target_rules() {
    assert_eq!(launch_target(&args(&["exe"])), "console");
    assert_eq!(launch_target(&args(&["exe", "--launch=gmail"])), "gmail");
    assert_eq!(launch_target(&args(&["exe", "--launch=a=b", "--launch=c"])), "a");
    assert_eq!(launch_target(&args(&["exe", "--launch="])), "");
    assert_eq!(startup_target(&args(&["exe", "--hidden", "--launch=x"])), None);
    assert_eq!(startup_target(&args(&["exe", "--console"])), Some("console".to_string()));
}

#[test]
fn platform_status_splits_states() {
    let st = |id: &str, status: &str| AppStatus {
        id: id.into(),
        status: status.into(),
        window_id: None,
        memory_kb: None,
        started_at: None,
    };
    let all = vec![st("a", "running"), st("b", "background"), st("c", "running")];
    let ps = platform_status(&all, "0.1.0", 7, 3070);
    assert_eq!(ps.running, vec!["a", "c"]);
    assert_eq!(ps.background, vec!["b"]);
    assert_eq!(ps.memory_kb, 0);
    assert_eq!(ps.port, 3070);
    assert_eq!(ps.uptime_sec, 7);
}

#[test]
fn app_status_snapshot_reads_table() {
    let mut state = AppState::with_stores(
        AppStore::with_dir("c".into()),
        AuthStore::with_grants("g".into(), Vec::new()),
    );
    state.mark_running("a", "win-a", "background");
    let snap = app_status_snapshot(&state, "a");
    assert_eq!(snap.status, "background");
    assert!(snap.window_id.is_none());
    assert_eq!(app_status_snapshot(&state, "b").status, "stopped");
}

#[test]
fn request_body_fields() {
    let body = obj(vec![("command", s("ls -la")), ("allow", Json::Bool(true))]);
    assert_eq!(command_of(&body), Some("ls -la".to_string()));
    assert_eq!(command_of(&obj(vec![("command", s(""))])), None);
    assert_eq!(command_of(&obj(vec![])), None);
    assert!(flag_of(&body, "allow"));
    assert!(!flag_of(&body, "remember"));
}

#[test]
fn command_splitting() {
    assert_eq!(split_words("  explorer.exe \t C:/x  y "), vec!["explorer.exe", "C:/x", "y"]);
    let (p, a) = split_command("notepad a.txt").unwrap();
    assert_eq!(p, "notepad");
    assert_eq!(a, vec!["a.txt"]);
    assert!(split_command("   ").is_none());
}

#[test]
fn update_patch_keeps_missing_fields() {
    let mut e = console_app();
    e.id = "x".into();
    e.name = "Old".into();
    e.url = "https://old".into();
    e.close_action = "quit".into();
    e.hook_options.timeout_ms = 99;
    let p = update_patch(&obj(vec![("name", s("New"))]), Some(&e)).unwrap();
    assert_eq!(p.name, "New");
    assert_eq!(p.url, "https://old");
    assert_eq!(p.close_action, "quit");
    assert_eq!(p.hook_options.timeout_ms, 99);
    let p = update_patch(&obj(vec![("url", s(""))]), Some(&e)).unwrap();
    assert_eq!(p.url, "https://old");
}

#[test]
fn update_patch_without_existing_needs_full_fields() {
    assert_eq!(update_patch(&obj(vec![("name", s("N"))]), None).unwrap_err(), "字段 url 必填");
    let mut e = console_app();
    e.name = String::new();
    assert_eq!(update_patch(&obj(vec![]), Some(&e)).unwrap_err(), "字段 name 必填");
}

#[test]
fn delete_refuses_system_apps() {
    let c = console_app();
    let e = delete_refusal(&c).unwrap();
    assert_eq!(e.error, "cannot_delete_system_app");
    assert_eq!(e.message, "系统应用不可删除");
    let mut other = c.clone();
    other.is_system = false;
    assert!(delete_refusal(&other).is_none());
}

#[test]
fn shortcut_icon_priority() {
    let mut app = console_app();
    app.icon = "C:/a.ico".into();
    let body = obj(vec![("icon", s("https://x/i.png"))]);
    assert_eq!(shortcut_icon(Some(&body), &app), Some("https://x/i.png".to_string()));
    assert_eq!(shortcut_icon(None, &app), Some("C:/a.ico".to_string()));
    app.icon = String::new();
    assert_eq!(shortcut_icon(Some(&obj(vec![])), &app), None);
}

#[test]
fn delete_stops_a_running_app_first() {
    let mut state = AppState::with_stores(
        AppStore::with_dir("c".into()),
        AuthStore::with_grants("g".into(), Vec::new()),
    );
    let mut app = console_app();
    assert!(matches!(delete_step(&app, &state), DeleteStep::Refuse(_)));
    app.is_system = false;
    app.id = "a".into();
    assert!(matches!(delete_step(&app, &state), DeleteStep::Delete));
    state.mark_running("a", "win-a", "running");
    assert!(matches!(delete_step(&app, &state), DeleteStep::StopThenDelete));
}

#[test]
fn partial_update_through_the_store_keeps_missing_fields() {
    let store = AppStore::with_dir("c".into());
    let mut e = console_app();
    e.id = "x".into();
    e.is_system = false;
    e.name = "Old".into();
    e.close_action = "quit".into();
    e.tags = vec!["t1".into()];
    e.hooks.pre_launch = vec!["echo a".into()];
    e.injections.css = "body{}".into();
    e.ui_controls.refresh = true;
    e.launch_on_boot = true;
    let patch = update_patch(&obj(vec![("url", s("https://new"))]), Some(&e)).unwrap();
    let m = store.update(Some(e.clone()), patch).unwrap();
    assert_eq!(m.url, "https://new");
    assert_eq!(m.id, "x");
    assert_eq!(m.name, "Old");
    assert_eq!(m.close_action, "quit");
    assert_eq!(m.tags, vec!["t1"]);
    assert_eq!(m.hooks.pre_launch, vec!["echo a"]);
    assert_eq!(m.injections.css, "body{}");
    assert!(m.ui_controls.refresh);
    assert!(m.launch_on_boot);
    assert_eq!(m.created_at, e.created_at);
}

#[test]
fn restore_rules() {
    use_restore();
}

fn use_restore() {
    let mut other = console_app();
    other.id = "a".into();
    other.is_system = false;
    let apps = vec![other];
    assert!(matches!(webdesk::server::restore_step(&apps, "a"), webdesk::server::RestoreStep::Existing(0)));
    match webdesk::server::restore_step(&apps, "console") {
        webdesk::server::RestoreStep::Recreate(c) => {
            assert_eq!(c.id, "console");
            assert!(c.is_system);
        }
        _ => panic!("the console is rebuilt"),
    }
    assert!(matches!(webdesk::server::restore_step(&apps, "zz"), webdesk::server::RestoreStep::NotFound));
}
