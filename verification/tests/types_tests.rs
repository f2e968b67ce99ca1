use webdesk::json::Json;
use webdesk::types::{ApiError, App, HookConfig, HookOptions, Injections, UiControls};

fn obj(entries: Vec<(&str, Json)>) -> Json {
    Json::Object(entries.into_iter().map(|(k, v)| (k.to_string(), v)).collect())
}

fn s(v: &str) -> Json {
    Json::Str(v.to_string())
}

#[test]
fn app_defaults_are_sane() {
    let app = App {
        id: "test".into(),
        name: "Test".into(),
        url: "https://example.com".into(),
        runtime_profile: "system".into(),
        close_action: "background".into(),
        hooks: HookConfig::default(),
        hook_options: HookOptions::default(),
        ui_controls: UiControls::default(),
        injections: Injections::default(),
        icon: String::new(),
        extensions: vec![],
        is_system: false,
        launch_on_boot: false,
        tags: vec![],
        created_at: "now".into(),
        updated_at: "now".into(),
    };
    assert_eq!(app.hook_options.timeout_ms, 30_000);
    assert_eq!(app.injections.timing, "document_idle");
    assert_eq!(app.close_action, "background");
}

#[test]
fn api_error_shape() {
    let e = ApiError::new("not_found", "应用不存在");
    assert_eq!(e.error, "not_found");
    assert_eq!(e.message, "应用不存在");
}

#[test]
fn defaults_of_parts() {
    let o = HookOptions::default();
    assert_eq!(o.shell, "cmd");
    assert!(o.blocking);
    let u = UiControls::default();
    assert!(!u.address_bar && !u.nav_buttons && !u.refresh);
    let h = HookConfig::default();
    assert!(h.pre_launch.is_empty() && h.post_exit.is_empty());
}

#[test]
fn from_partial_requires_name_and_url() {
    let e = App::from_partial(&obj(vec![("url", s("https://x.com"))])).unwrap_err();
    assert_eq!(e, "字段 name 必填");
    let e = App::from_partial(&obj(vec![("name", s("X"))])).unwrap_err();
    assert_eq!(e, "字段 url 必填");
    let e = App::from_partial(&obj(vec![("name", s("")), ("url", s("u"))])).unwrap_err();
    assert_eq!(e, "字段 name 必填");
}

#[test]
fn from_partial_fills_defaults() {
    let app = App::from_partial(&obj(vec![("name", s("X")), ("url", s("https://x.com"))])).unwrap();
    assert_eq!(app.id, "");
    assert_eq!(app.runtime_profile, "system");
    assert_eq!(app.close_action, "background");
    assert_eq!(app.hook_options.timeout_ms, 30_000);
    assert_eq!(app.injections.timing, "document_idle");
    assert!(!app.ui_controls.refresh);
    assert!(!app.is_system);
}

#[test]
fn from_partial_reads_given_fields() {
    let input = obj(vec![
        ("name", s("X")),
        ("url", s("https://x.com")),
        ("close_action", s("quit")),
        ("hooks", obj(vec![("pre_launch", Json::Array(vec![s("a"), Json::Number(Some(1)), s("b")]))])),
        ("hook_options", obj(vec![("shell", s("sh")), ("timeout_ms", Json::Number(Some(5)))])),
        ("launch_on_boot", Json::Bool(true)),
        ("tags", Json::Array(vec![s("t")])),
    ]);
    let app = App::from_partial(&input).unwrap();
    assert_eq!(app.close_action, "quit");
    assert_eq!(app.hooks.pre_launch, vec!["a", "b"]);
    assert_eq!(app.hook_options.shell, "sh");
    assert_eq!(app.hook_options.timeout_ms, 5);
    assert!(app.launch_on_boot);
    assert_eq!(app.tags, vec!["t"]);
}
