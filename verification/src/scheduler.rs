//! App lifecycle decisions: window labels, what a launch request does, and
//! the script injected into an app window.
use vstd::prelude::*;

use crate::text::{concat2, owned, push_str, str_eq, trim, trim_seq};
use crate::types::App;

verus! {

/// The lifecycle scheduler. The window system is driven by the caller; the
/// scheduler itself only names windows and answers for a window-less run.
#[derive(Clone, Debug)]
pub struct Scheduler {}

/// The label of an app's window: `win-{app_id}`.
pub open spec fn window_label_text(app_id: Seq<char>) -> Seq<char> {
    "win-"@ + app_id
}

impl Default for Scheduler {
    fn default() -> (r: Self) {
        Scheduler {  }
    }
}

impl Scheduler {
    pub fn new() -> (r: Self) {
        Scheduler {  }
    }

    /// The label of an app's window: `win-{app_id}`.
    pub fn window_label(app_id: &str) -> (r: String)
        ensures
            r@ == window_label_text(app_id@),
    {
        concat2("win-", app_id)
    }

    /// Starts an app without a window system: the app's window label.
    pub fn launch(&self, app: &App) -> (r: Result<String, String>)
        ensures
            r matches Ok(label) && label@ == window_label_text(app.id@),
    {
        Ok(Self::window_label(app.id.as_str()))
    }

    /// Activates an app's window without a window system: nothing to do.
    pub fn activate(&self, app: &App) -> (r: Result<(), String>)
        ensures
            r is Ok,
    {
        Ok(())
    }

    /// Terminates an app without a window system: nothing to do.
    pub fn terminate(&self, app: &App) -> (r: Result<(), String>)
        ensures
            r is Ok,
    {
        Ok(())
    }

    /// Whether the scheduler itself holds unfinished work: never; the
    /// running-app table answers that question.
    pub fn has_work(&self) -> (r: bool)
        ensures
            !r,
    {
        false
    }
}

/// The label of an app's window (`Scheduler::window_label`).
pub fn window_label(id: &str) -> (r: String)
    ensures
        r@ == window_label_text(id@),
{
    Scheduler::window_label(id)
}

/// What a launch request does.
#[derive(Clone, Copy, Debug, PartialEq, Eq)]
pub enum LaunchStep {
    /// The app is not configured: report "应用不存在: {id}".
    NotFound,
    /// The app's window exists: show and focus it.
    Activate,
    /// Create the app's window.
    CreateWindow,
}

/// The launch rule: an unknown app is refused, an app whose window exists is
/// activated, any other app gets a new window.
pub fn launch_step(app_configured: bool, window_exists: bool) -> (r: LaunchStep)
    ensures
        !app_configured ==> r == LaunchStep::NotFound,
        app_configured && window_exists ==> r == LaunchStep::Activate,
        app_configured && !window_exists ==> r == LaunchStep::CreateWindow,
{
    if !app_configured {
        LaunchStep::NotFound
    } else if window_exists {
        LaunchStep::Activate
    } else {
        LaunchStep::CreateWindow
    }
}

/// The error text of a launch of an unknown app.
pub fn not_found_message(id: &str) -> (r: String)
    ensures
        r@ == "应用不存在: "@ + id@,
{
    concat2("应用不存在: ", id)
}

/// Whether closing the app's window keeps the app in the background
/// (`close_action == "background"`) rather than closing it.
pub fn stays_in_background(app: &App) -> (r: bool)
    ensures
        r == (app.close_action@ == "background"@),
{
    str_eq(app.close_action.as_str(), "background")
}

/// JSON text of a string, from `serde_json::to_string` on a `&str`: the
/// string in double quotes with `"` and `\` backslash-escaped, the control
/// chars 08/09/0A/0C/0D written as `\b \t \n \f \r`, the other chars below
/// 0x20 written as `\u00XX` (lowercase hex), and every other char as is.
/// `None` would stand for a serialization error; serde_json's source shows
/// that serializing a `str` into a `String` does not fail.
#[verifier::external_body]
fn json_string(s: &str) -> (r: Option<String>)
    ensures
        r is Some,
        r.unwrap()@ == json_quoted(s@),
{
    serde_json::to_string(s).ok()
}

/// The JSON escape of one char.
pub open spec fn json_escape_char(c: char) -> Seq<char> {
    let u = c as u32;
    if c == '"' {
        seq!['\\', '"']
    } else if c == '\\' {
        seq!['\\', '\\']
    } else if u == 0x08 {
        seq!['\\', 'b']
    } else if u == 0x09 {
        seq!['\\', 't']
    } else if u == 0x0a {
        seq!['\\', 'n']
    } else if u == 0x0c {
        seq!['\\', 'f']
    } else if u == 0x0d {
        seq!['\\', 'r']
    } else if u < 0x20 {
        seq!['\\', 'u', '0', '0', crate::text::hex_char((u / 16) as nat), crate::text::hex_char((u % 16) as nat)]
    } else {
        seq![c]
    }
}

/// The JSON-escaped body of a text (without the quotes).
pub open spec fn json_escaped(s: Seq<char>) -> Seq<char>
    decreases s.len(),
{
    if s.len() == 0 {
        Seq::empty()
    } else {
        json_escaped(s.drop_last()) + json_escape_char(s.last())
    }
}

/// The JSON string literal of a text.
pub open spec fn json_quoted(s: Seq<char>) -> Seq<char> {
    seq!['"'] + json_escaped(s) + seq!['"']
}

/// The head of the bridge script, up to the app id literal.
pub open spec fn bridge_head() -> Seq<char> {
    BRIDGE_HEAD@
}

/// The rest of the bridge script, after the app id literal.
pub open spec fn bridge_tail() -> Seq<char> {
    BRIDGE_TAIL@
}

/// The start of the style injection, up to the CSS literal.
pub const STYLE_HEAD: &'static str = "(() => { const s = document.createElement('style'); s.id = 'webdesk-inject-style'; s.textContent = ";

/// The end of the style injection, after the CSS literal.
pub const STYLE_TAIL: &'static str = "; (document.head || document.documentElement).appendChild(s); })();";

/// The start of the script injection, up to the JS literal.
pub const SCRIPT_HEAD: &'static str = "(() => { const t = document.createElement('script'); t.textContent = ";

/// The end of the script injection, after the JS literal.
pub const SCRIPT_TAIL: &'static str = "; (document.head || document.documentElement).appendChild(t); })();";

/// The bridge script up to the app id literal: it defines
/// `window.webdesk.exec(command)`, which asks the management API to run a
/// command and shows the approval dialog when the API asks for approval.
pub const BRIDGE_HEAD: &'static str = "\n(() => {\n  const APP_ID = ";

/// The bridge script after the app id literal.
pub const BRIDGE_TAIL: &'static str = ";\n  const exec = async (command, opts = {}) => {\n    // 先请求执行\n    let resp = await fetch(`/api/apps/${APP_ID}/exec`, {\n      method: 'POST', headers: {'Content-Type': 'application/json'},\n      body: JSON.stringify({ command })\n    });\n    let data = await resp.json().catch(() => ({}));\n    if (data.status === 'executed') return { ok: true, data };\n    if (data.status !== 'needs_approval') return { ok: false, error: data.message || '执行失败' };\n\n    // 未授权 → 弹授权框（含不再提示）\n    const allowed = await showApproval(data.command);\n    if (allowed === null) return { ok: false, error: '用户取消' };\n    // 用户确认 → 调 approve（remember 由 opts 决定，默认记住）\n    const remember = opts.remember !== false;\n    resp = await fetch(`/api/apps/${APP_ID}/exec/approve`, {\n      method: 'POST', headers: {'Content-Type': 'application/json'},\n      body: JSON.stringify({ command, allow: allowed, remember })\n    });\n    const res2 = await resp.json().catch(() => ({}));\n    if (allowed && res2.status === 'executed') return { ok: true, data: res2 };\n    return { ok: false, error: res2.message || '已拒绝' };\n  };\n\n  // 授权框（HTML 模态，含\"不再提示\"勾选）\n  function showApproval(command) {\n    return new Promise((resolve) => {\n      const ov = document.createElement('div');\n      ov.style.cssText = 'position:fixed;inset:0;background:rgba(0,0,0,.45);z-index:999999;display:flex;align-items:center;justify-content:center;font-family:system-ui,sans-serif;';\n      const box = document.createElement('div');\n      box.style.cssText = 'background:#fff;color:#111;border-radius:10px;padding:24px;max-width:440px;width:90%;box-shadow:0 8px 30px rgba(0,0,0,.3);';\n      box.innerHTML = `\n        <h3 style=\"margin:0 0 12px;font-size:16px;\">WebDesk 命令授权</h3>\n        <p style=\"margin:0 0 8px;font-size:13px;color:#555;\">应用请求执行以下本地命令：</p>\n        <pre style=\"background:#f5f5f5;padding:10px;border-radius:6px;font-size:12px;word-break:break-all;white-space:pre-wrap;margin:0 0 14px;\">${escapeHtml(command)}</pre>\n        <label style=\"display:flex;align-items:center;gap:6px;font-size:13px;margin-bottom:16px;cursor:pointer;\">\n          <input type=\"checkbox\" id=\"webdesk-remember\" checked> 以后不再提示（记住本次授权）\n        </label>\n        <div style=\"display:flex;justify-content:flex-end;gap:8px;\">\n          <button id=\"webdesk-deny\" style=\"padding:7px 14px;border:1px solid #ddd;border-radius:6px;background:#fff;cursor:pointer;\">拒绝</button>\n          <button id=\"webdesk-allow\" style=\"padding:7px 16px;border:none;border-radius:6px;background:#2563eb;color:#fff;cursor:pointer;\">允许</button>\n        </div>`;\n      ov.appendChild(box);\n      document.body.appendChild(ov);\n      document.getElementById('webdesk-allow').onclick = () => { document.body.removeChild(ov); resolve(true); };\n      document.getElementById('webdesk-deny').onclick = () => { document.body.removeChild(ov); resolve(false); };\n    });\n  }\n  function escapeHtml(s) { return s.replace(/&/g,'&amp;').replace(/</g,'&lt;').replace(/>/g,'&gt;'); }\n\n  Object.defineProperty(window, 'webdesk', { value: { exec }, configurable: true });\n})();\n";

/// A JSON string literal for `s` (the literal `''` should serialization fail).
fn js_literal(s: &str) -> (r: String)
    ensures
        r@ == json_quoted(s@),
{
    match json_string(s) {
        Some(t) => t,
        None => owned("''"),
    }
}

/// The script injected into an app window: the bridge that defines
/// `window.webdesk.exec` for this app, then, when the app's trimmed CSS is
/// non-empty, a style element holding it, then, when the trimmed JS is
/// non-empty, `;` and a script element holding it. Each injected text is
/// embedded as a JSON string literal.
pub open spec fn injection_script_text(
    app_id: Seq<char>,
    css: Seq<char>,
    js: Seq<char>,
) -> Seq<char> {
    let css_t = trim_seq(css);
    let js_t = trim_seq(js);
    bridge_head() + json_quoted(app_id) + bridge_tail() + (if css_t.len() > 0 {
        STYLE_HEAD@ + json_quoted(css_t) + STYLE_TAIL@
    } else {
        Seq::empty()
    }) + (if js_t.len() > 0 {
        ";"@ + SCRIPT_HEAD@ + json_quoted(js_t) + SCRIPT_TAIL@
    } else {
        Seq::empty()
    })
}

/// The script injected into an app's window (see [`injection_script_text`]);
/// its JSON string literals come from `serde_json`, which does not fail on a
/// string.
pub fn injection_script(app: &App) -> (r: String)
    ensures
        r@ == injection_script_text(app.id@, app.injections.css@, app.injections.js@),
{
    let id_lit = js_literal(app.id.as_str());
    let mut script = owned(BRIDGE_HEAD);
    push_str(&mut script, id_lit.as_str());
    push_str(&mut script, BRIDGE_TAIL);
    let css = trim(app.injections.css.as_str());
    let js = trim(app.injections.js.as_str());
    if !css.as_str().is_empty() {
        let lit = js_literal(css.as_str());
        push_str(&mut script, STYLE_HEAD);
        push_str(&mut script, lit.as_str());
        push_str(&mut script, STYLE_TAIL);
    }
    if !js.as_str().is_empty() {
        push_str(&mut script, ";");
        let lit = js_literal(js.as_str());
        push_str(&mut script, SCRIPT_HEAD);
        push_str(&mut script, lit.as_str());
        push_str(&mut script, SCRIPT_TAIL);
    }
    script
}

} // verus!
