use webdesk::scheduler::{
    injection_script, launch_step, not_found_message, stays_in_background, window_label,
    LaunchStep, Scheduler,
};
use webdesk::types::{App, HookConfig, HookOptions, Injections, UiControls};

fn sample_app() -> App {
    App {
        id: "app1".into(),
        name: "Test".into(),
        url: "https://example.com".into(),
        runtime_profile: "system".into(),
        close_action: "background".into(),
        hooks: HookConfig::default(),
        hook_options: HookOptions::default(),
        ui_controls: UiControls::default(),
        injections: Injections::default(),
        icon: String::new(),
        extensions: vec![],
        is_system: false,
        launch_on_boot: false,
        tags: vec![],
        created_at: "now".into(),
        updated_at: "now".into(),
    }
}

#[test]
fn window_label_generation() {
    assert_eq!(Scheduler::window_label("app1"), "win-app1");
    assert_eq!(Scheduler::window_label("console"), "win-console");
    assert_eq!(window_label("xyz-123"), "win-xyz-123");
}

#[test]
fn scheduler_launch_returns_label() {
    let s = Scheduler::new();
    let app = sample_app();
    let label = s.launch(&app).unwrap();
    assert_eq!(label, "win-app1");
}

#[test]
fn scheduler_activate_terminate_noop_ok() {
    let s = Scheduler::new();
    let app = sample_app();
    assert!(s.activate(&app).is_ok());
    assert!(s.terminate(&app).is_ok());
}

#[test]
fn has_work_defaults_false() {
    let s = Scheduler::new();
    assert!(!s.has_work());
}

#[test]
fn inject_script_contains_css_js() {
    let mut app = sample_app();
    app.injections.css = "body { color: red; }".into();
    app.injections.js = "console.log('hi');".into();
    let script = injection_script(&app);
    assert!(script.contains("webdesk-inject-style"));
    assert!(script.contains("body"));
    assert!(script.contains("console.log"));
}

#[test]
fn inject_script_quotes_as_json_strings() {
    let mut app = sample_app();
    app.injections.css = "a \"b\"".into();
    let script = injection_script(&app);
    assert!(script.contains("const APP_ID = \"app1\";"));
    assert!(script.contains("s.textContent = \"a \\\"b\\\"\";"));
    assert!(!script.contains("createElement('script')"));
}

#[test]
fn inject_script_without_injections_is_only_the_bridge() {
    let app = sample_app();
    let script = injection_script(&app);
    assert!(script.contains("window, 'webdesk'"));
    assert!(!script.contains("webdesk-inject-style"));
}

#[test]
fn launch_rule() {
    assert_eq!(launch_step(false, true), LaunchStep::NotFound);
    assert_eq!(launch_step(true, true), LaunchStep::Activate);
    assert_eq!(launch_step(true, false), LaunchStep::CreateWindow);
    assert_eq!(not_found_message("zz"), "应用不存在: zz");
}

#[test]
fn close_action_decides_background() {
    let mut app = sample_app();
    assert!(stays_in_background(&app));
    app.close_action = "quit".into();
    assert!(!stays_in_background(&app));
}
