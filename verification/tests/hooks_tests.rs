use webdesk::hooks::{
    bat_file_name, completed_hook, failed_hook, is_bat_code, run_post_exit, run_pre_launch,
    runs_as_bat_file, shell_command, substitute_vars, truncate, wait_step, HookResult, WaitStep,
    OUTPUT_LIMIT,
};
use webdesk::types::{HookConfig, HookOptions};

#[test]
fn shell_command_maps() {
    let (p, args) = shell_command("cmd", "echo hi");
    assert_eq!(p, "cmd");
    assert_eq!(args, vec!["/C", "echo hi"]);
    let (p, args) = shell_command("powershell", "Get-Date");
    assert_eq!(p, "powershell");
    assert!(args.contains(&"Get-Date".to_string()));
}

#[test]
fn shell_command_other_shells() {
    let (p, args) = shell_command("powershell", "Get-Date");
    assert_eq!(p, "powershell");
    assert_eq!(args, vec!["-NoProfile", "-Command", "Get-Date"]);
    let (p, args) = shell_command("wsl", "ls");
    assert_eq!(p, "wsl");
    assert_eq!(args, vec!["ls"]);
    let (p, args) = shell_command("sh", "ls");
    assert_eq!(p, "sh");
    assert_eq!(args, vec!["-c", "ls"]);
    let (p, args) = shell_command("fish", "ls");
    assert_eq!(p, "cmd");
    assert_eq!(args, vec!["/C", "ls"]);
}

#[test]
fn substitute_vars_works() {
    let cmd = "echo {app_id} {url} {port}";
    let out = substitute_vars(cmd, "abc", "https://x.com", "1420");
    assert_eq!(out, "echo abc https://x.com 1420");
}

#[test]
fn substitute_vars_replaces_every_occurrence() {
    let out = substitute_vars("{app_id}-{app_id} {port}", "a", "u", "1");
    assert_eq!(out, "a-a 1");
    assert_eq!(substitute_vars("no vars", "a", "u", "1"), "no vars");
}

#[test]
fn truncate_limits_length() {
    let long = "x".repeat(5000);
    let t = truncate(&long, 4000);
    assert!(t.len() <= 4050);
    assert!(t.contains("omitted"));
}

#[test]
fn truncate_exact_note_and_short_text() {
    let long = "y".repeat(4010);
    let t = truncate(&long, OUTPUT_LIMIT);
    assert_eq!(t, format!("{}…[10 chars omitted]", "y".repeat(4000)));
    assert_eq!(truncate("short", 4000), "short");
}

#[test]
fn wait_step_decisions() {
    assert_eq!(wait_step(500, true, 10), WaitStep::Finished);
    assert_eq!(wait_step(500, false, 600), WaitStep::TimedOut);
    assert_eq!(wait_step(500, false, 500), WaitStep::TimedOut);
    assert_eq!(wait_step(500, false, 100), WaitStep::PollAgain);
    assert_eq!(wait_step(0, false, 1_000_000), WaitStep::WaitForever);
}

#[test]
fn completed_hook_on_timeout() {
    let r = completed_hook("pre_launch", "ping", true, Some(0), "out", "err");
    assert_eq!(r.exit_code, None);
    assert!(r.stderr.contains("TIMEOUT"));
    assert_eq!(r.stdout, "out");
    let r = completed_hook("post_exit", "exit 3", false, Some(3), "", "e");
    assert_eq!(r.exit_code, Some(3));
    assert_eq!(r.stderr, "e");
    assert_eq!(r.event, "post_exit");
}

#[test]
fn failed_hook_reports_error() {
    let r = failed_hook("pre_launch", "x", "启动失败: no such file");
    assert_eq!(r.exit_code, None);
    assert_eq!(r.stdout, "");
    assert_eq!(r.stderr, "启动失败: no such file");
}

#[test]
fn bat_detection() {
    assert!(is_bat_code("@echo off\necho hi"));
    assert!(!is_bat_code("echo hi"));
    let cmd_opts = HookOptions { shell: "cmd".to_string(), timeout_ms: 1, blocking: true };
    let sh_opts = HookOptions { shell: "sh".to_string(), timeout_ms: 1, blocking: true };
    assert!(runs_as_bat_file("a\nb", &cmd_opts));
    assert!(!runs_as_bat_file("a\nb", &sh_opts));
    assert_eq!(bat_file_name("pre_launch", 42), "pre_launch_42.bat");
}

fn fake_run(event: &str, command: &str, _o: &HookOptions) -> HookResult {
    HookResult {
        event: event.to_string(),
        command: command.to_string(),
        exit_code: Some(0),
        stdout: String::new(),
        stderr: String::new(),
    }
}

#[test]
fn run_hooks_in_order() {
    let hooks = HookConfig {
        pre_launch: vec!["a".to_string(), "b".to_string()],
        post_exit: vec!["c".to_string()],
    };
    let o = HookOptions::default();
    let pre = run_pre_launch(&hooks, &o, fake_run);
    assert_eq!(pre.len(), 2);
    assert_eq!(pre[0].command, "a");
    assert_eq!(pre[1].command, "b");
    assert_eq!(pre[0].event, "pre_launch");
    let post = run_post_exit(&hooks, &o, fake_run);
    assert_eq!(post.len(), 1);
    assert_eq!(post[0].event, "post_exit");
}

#[test]
fn truncate_cuts_at_the_last_char_boundary() {
    let s = "é".repeat(3);
    assert_eq!(truncate(&s, 3), "é…[4 chars omitted]");
    assert_eq!(truncate(&s, 1), "…[6 chars omitted]");
    assert_eq!(truncate(&s, 4), "éé…[2 chars omitted]");
}

fn sloppy_run(_event: &str, _command: &str, _o: &HookOptions) -> HookResult {
    HookResult {
        event: "other".to_string(),
        command: "C:/tmp/x.bat".to_string(),
        exit_code: Some(7),
        stdout: "out".to_string(),
        stderr: String::new(),
    }
}

#[test]
fn hook_results_carry_their_event_and_command() {
    let hooks = HookConfig { pre_launch: vec!["a".to_string()], post_exit: vec!["b".to_string()] };
    let o = HookOptions::default();
    let pre = run_pre_launch(&hooks, &o, sloppy_run);
    assert_eq!(pre[0].event, "pre_launch");
    assert_eq!(pre[0].command, "a");
    assert_eq!(pre[0].exit_code, Some(7));
    assert_eq!(pre[0].stdout, "out");
    let post = run_post_exit(&hooks, &o, sloppy_run);
    assert_eq!(post[0].event, "post_exit");
    assert_eq!(post[0].command, "b");
}
