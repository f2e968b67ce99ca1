use webdesk::cli::{
    add_request, api_url, app_path, interpret_response, is_cli_invocation, json_str_list,
    launch_report, normalize_cli_arg, normalize_cli_args, normalize_url, split_hooks,
    status_field,
};
use webdesk::json::Json;

fn args(v: &[&str]) -> Vec<String> {
    v.iter().map(|a| a.to_string()).collect()
}

#[test]
fn cli_or_host() {
    assert!(is_cli_invocation(&args(&["addweb", "-n", "x"])));
    assert!(is_cli_invocation(&args(&["app", "list"])));
    assert!(!is_cli_invocation(&args(&[])));
    assert!(!is_cli_invocation(&args(&["--hidden"])));
    assert!(!is_cli_invocation(&args(&["status", "--hidden"])));
    assert!(!is_cli_invocation(&args(&["console", "--launch"])));
    assert!(!is_cli_invocation(&args(&["--launch=gmail"])));
}

#[test]
fn short_options_become_long() {
    assert_eq!(normalize_cli_arg("-url"), "--url");
    assert_eq!(normalize_cli_arg("-n"), "--name");
    assert_eq!(normalize_cli_arg("-hook"), "--pre");
    assert_eq!(normalize_cli_arg("-hook_exit"), "--post");
    assert_eq!(normalize_cli_arg("-timeout"), "--timeout");
    assert_eq!(normalize_cli_arg("-x"), "-x");
    assert_eq!(
        normalize_cli_args(&args(&["webdesk", "addweb", "-name", "A", "-url", "a.com"])),
        args(&["webdesk", "addweb", "--name", "A", "--url", "a.com"])
    );
}

#[test]
fn url_normalisation() {
    assert_eq!(normalize_url("  example.com/ "), Ok("http://example.com/".to_string()));
    assert_eq!(normalize_url("https://a.com"), Ok("https://a.com".to_string()));
    assert_eq!(normalize_url("http://a.com/"), Ok("http://a.com/".to_string()));
    assert_eq!(normalize_url("   "), Err("URL 不能为空".to_string()));
    let once = normalize_url(" x.org ").unwrap();
    assert_eq!(normalize_url(&once).unwrap(), once);
}

#[test]
fn hooks_split_on_semicolons() {
    assert_eq!(split_hooks(" echo a ; ;echo b;  "), vec!["echo a", "echo b"]);
    assert!(split_hooks("").is_empty());
    assert_eq!(split_hooks("one"), vec!["one"]);
}

#[test]
fn add_request_shape() {
    let q = add_request("A", "a.com", "quit", Some("x;y"), None, "sh", 5).unwrap();
    assert_eq!(q.url, "http://a.com");
    assert_eq!(q.name, "A");
    assert_eq!(q.close_action, "quit");
    assert_eq!(q.pre_launch, vec!["x", "y"]);
    assert!(q.post_exit.is_empty());
    assert_eq!(q.shell, "sh");
    assert_eq!(q.timeout_ms, 5);
    assert!(q.blocking);
    assert!(add_request("A", " ", "quit", None, None, "sh", 5).is_err());
}

#[test]
fn urls_of_the_api() {
    assert_eq!(api_url(3070, "/api/health"), "http://127.0.0.1:3070/api/health");
    assert_eq!(app_path("g", "/status"), "/api/apps/g/status");
}

#[test]
fn response_reading() {
    assert!(matches!(interpret_response(true, "200 OK", "  ", None), Ok(Json::Null)));
    assert!(matches!(
        interpret_response(true, "200 OK", "{}", Some(Json::Object(vec![]))),
        Ok(Json::Object(_))
    ));
    assert_eq!(
        interpret_response(true, "200 OK", "oops", None).unwrap_err(),
        "响应解析失败: oops"
    );
    let body = Json::Object(vec![("message".to_string(), Json::Str("应用不存在".to_string()))]);
    assert_eq!(
        interpret_response(false, "404 Not Found", "{...}", Some(body)).unwrap_err(),
        "HTTP 404 Not Found: 应用不存在"
    );
    assert_eq!(
        interpret_response(false, "500 Internal Server Error", "boom", None).unwrap_err(),
        "HTTP 500 Internal Server Error: boom"
    );
}

#[test]
fn response_fields() {
    let r = Json::Object(vec![("status".to_string(), Json::Str("running".to_string()))]);
    assert_eq!(status_field(&r), "running");
    assert_eq!(status_field(&Json::Null), "?");
    assert_eq!(launch_report("g", "running"), "✅ 应用 g 已启动");
    assert_eq!(launch_report("g", "stopped"), "ℹ️ 应用 g: stopped");
}

#[test]
fn name_lists() {
    let arr = Json::Array(vec![
        Json::Str("a".into()),
        Json::Number(Some(1)),
        Json::Str("b".into()),
    ]);
    assert_eq!(json_str_list(Some(&arr)), "a, b");
    assert_eq!(json_str_list(Some(&Json::Array(vec![]))), "（无）");
    assert_eq!(json_str_list(None), "（无）");
    assert_eq!(json_str_list(Some(&Json::Null)), "（无）");
}
