//! The shared data model: an app configuration and the records that the
//! management API reports, with the defaulting rules of a partial app.
use vstd::prelude::*;
use crate::json::{as_bool, as_str, as_u64, bool_of, get, get_opt, json_get, opt_get, opt_ref, str_of, string_items, string_items_of, u64_of, views, Json};
use crate::text::owned;

verus! {

/// An app that the platform can host: entry URL, runtime settings, lifecycle
/// hooks, window controls and page injections.
#[derive(Clone, Debug, PartialEq)]
pub struct App {
    pub id: String,
    pub name: String,
    pub url: String,
    /// "system" (follow the system WebView, the default) or "pinned".
    pub runtime_profile: String,
    /// "background" (closing hides the window, the default) or "quit".
    pub close_action: String,
    pub hooks: HookConfig,
    pub hook_options: HookOptions,
    pub ui_controls: UiControls,
    pub injections: Injections,
    /// Local path or URL of the app's icon.
    pub icon: String,
    /// Local unpacked extension directories.
    pub extensions: Vec<String>,
    /// The management console itself; it cannot be deleted.
    pub is_system: bool,
    pub launch_on_boot: bool,
    pub tags: Vec<String>,
    pub created_at: String,
    pub updated_at: String,
}

/// Commands run before an app starts and after it exits.
#[derive(Clone, Debug, PartialEq)]
pub struct HookConfig {
    pub pre_launch: Vec<String>,
    pub post_exit: Vec<String>,
}

/// How hooks run: shell ("cmd" | "powershell" | "wsl" | "sh"), timeout per
/// command in milliseconds (0 waits forever), whether to block.
#[derive(Clone, Debug, PartialEq)]
pub struct HookOptions {
    pub shell: String,
    pub timeout_ms: u64,
    pub blocking: bool,
}

/// Which controls the app window shows.
#[derive(Clone, Copy, Debug, PartialEq, Eq)]
pub struct UiControls {
    pub address_bar: bool,
    pub nav_buttons: bool,
    pub refresh: bool,
}

/// CSS and JS injected into the app's pages, and when.
#[derive(Clone, Debug, PartialEq)]
pub struct Injections {
    pub css: String,
    pub js: String,
    /// "document_start" | "document_idle"
    pub timing: String,
}

/// Where the management API listens and its session token.
#[derive(Clone, Debug)]
pub struct ApiConfig {
    pub port: u16,
    pub token: String,
}

/// A snapshot of one app's run state.
#[derive(Clone, Debug, PartialEq)]
pub struct AppStatus {
    pub id: String,
    /// "running" | "background" | "stopped"
    pub status: String,
    pub window_id: Option<String>,
    pub memory_kb: Option<u64>,
    pub started_at: Option<String>,
}

/// The platform's overall state.
#[derive(Clone, Debug)]
pub struct PlatformStatus {
    pub running: Vec<String>,
    pub background: Vec<String>,
    pub version: String,
    pub uptime_sec: u64,
    pub memory_kb: u64,
    pub port: u16,
}

/// One line of the hook log.
#[derive(Clone, Debug)]
pub struct HookLogEntry {
    pub timestamp: String,
    /// "pre_launch" | "post_exit"
    pub event: String,
    pub shell: String,
    pub command: String,
    pub exit_code: Option<i32>,
    pub stdout: String,
    pub stderr: String,
}

/// The error body of the management API: a machine code and a message.
#[derive(Clone, Debug)]
pub struct ApiError {
    pub error: String,
    pub message: String,
}

/// What an app's isolated identity holds, without any secret contents.
#[derive(Clone, Debug)]
pub struct IdentitySummary {
    pub cookie_count: u64,
    pub extensions: Vec<String>,
    pub has_secrets: bool,
}

/// The view of hook lists.
pub struct HookConfigView {
    pub pre_launch: Seq<Seq<char>>,
    pub post_exit: Seq<Seq<char>>,
}

/// The view of hook options.
pub struct HookOptionsView {
    pub shell: Seq<char>,
    pub timeout_ms: u64,
    pub blocking: bool,
}

/// The view of page injections.
pub struct InjectionsView {
    pub css: Seq<char>,
    pub js: Seq<char>,
    pub timing: Seq<char>,
}

/// The view of an app: every text by its chars.
pub struct AppView {
    pub id: Seq<char>,
    pub name: Seq<char>,
    pub url: Seq<char>,
    pub runtime_profile: Seq<char>,
    pub close_action: Seq<char>,
    pub hooks: HookConfigView,
    pub hook_options: HookOptionsView,
    pub ui_controls: UiControls,
    pub injections: InjectionsView,
    pub icon: Seq<char>,
    pub extensions: Seq<Seq<char>>,
    pub is_system: bool,
    pub launch_on_boot: bool,
    pub tags: Seq<Seq<char>>,
    pub created_at: Seq<char>,
    pub updated_at: Seq<char>,
}

impl View for HookConfig {
    type V = HookConfigView;

    open spec fn view(&self) -> HookConfigView {
        HookConfigView { pre_launch: views(self.pre_launch@), post_exit: views(self.post_exit@) }
    }
}

impl View for HookOptions {
    type V = HookOptionsView;

    open spec fn view(&self) -> HookOptionsView {
        HookOptionsView {
            shell: self.shell@,
            timeout_ms: self.timeout_ms,
            blocking: self.blocking,
        }
    }
}

impl View for Injections {
    type V = InjectionsView;

    open spec fn view(&self) -> InjectionsView {
        InjectionsView { css: self.css@, js: self.js@, timing: self.timing@ }
    }
}

impl View for App {
    type V = AppView;

    open spec fn view(&self) -> AppView {
        AppView {
            id: self.id@,
            name: self.name@,
            url: self.url@,
            runtime_profile: self.runtime_profile@,
            close_action: self.close_action@,
            hooks: self.hooks@,
            hook_options: self.hook_options@,
            ui_controls: self.ui_controls,
            injections: self.injections@,
            icon: self.icon@,
            extensions: views(self.extensions@),
            is_system: self.is_system,
            launch_on_boot: self.launch_on_boot,
            tags: views(self.tags@),
            created_at: self.created_at@,
            updated_at: self.updated_at@,
        }
    }
}

/// Default hook options: `cmd`, 30 s, blocking.
pub open spec fn default_hook_options() -> HookOptionsView {
    HookOptionsView { shell: "cmd"@, timeout_ms: 30000, blocking: true }
}

/// Default injections: nothing, injected once the document is idle.
pub open spec fn default_injections() -> InjectionsView {
    InjectionsView { css: Seq::empty(), js: Seq::empty(), timing: "document_idle"@ }
}

/// Default window controls: all hidden.
pub open spec fn default_ui_controls() -> UiControls {
    UiControls { address_bar: false, nav_buttons: false, refresh: false }
}

impl Default for HookConfig {
    fn default() -> (r: Self)
        ensures
            r@.pre_launch.len() == 0,
            r@.post_exit.len() == 0,
    {
        let r = HookConfig { pre_launch: Vec::new(), post_exit: Vec::new() };
        proof {
            assert(views(r.pre_launch@) =~= Seq::<Seq<char>>::empty());
            assert(views(r.post_exit@) =~= Seq::<Seq<char>>::empty());
        }
        r
    }
}

impl Default for HookOptions {
    fn default() -> (r: Self)
        ensures
            r@ == default_hook_options(),
    {
        HookOptions { shell: owned("cmd"), timeout_ms: 30000, blocking: true }
    }
}

impl Default for UiControls {
    fn default() -> (r: Self)
        ensures
            r == default_ui_controls(),
    {
        UiControls { address_bar: false, nav_buttons: false, refresh: false }
    }
}

impl Default for Injections {
    fn default() -> (r: Self)
        ensures
            r@ == default_injections(),
    {
        Injections { css: String::new(), js: String::new(), timing: owned("document_idle") }
    }
}

impl ApiError {
    /// An error body with the given code and message.
    pub fn new(error: &str, message: &str) -> (r: Self)
        ensures
            r.error@ == error@,
            r.message@ == message@,
    {
        ApiError { error: owned(error), message: owned(message) }
    }
}

/// `value` read as `UiControls` the way serde's derived deserializer reads a
/// JSON value: an object with the three boolean fields (others ignored), or
/// an array of exactly three booleans in field order.
pub open spec fn ui_controls_from(v: Option<Json>) -> Option<UiControls> {
    match v {
        Some(Json::Object(entries)) => {
            let o = Json::Object(entries);
            match (
                as_bool(json_get(o, "address_bar"@)),
                as_bool(json_get(o, "nav_buttons"@)),
                as_bool(json_get(o, "refresh"@)),
            ) {
                (Some(a), Some(n), Some(r)) => Some(
                    UiControls { address_bar: a, nav_buttons: n, refresh: r },
                ),
                _ => None,
            }
        },
        Some(Json::Array(items)) => {
            if items@.len() == 3 {
                match (items@[0], items@[1], items@[2]) {
                    (Json::Bool(a), Json::Bool(n), Json::Bool(r)) => Some(
                        UiControls { address_bar: a, nav_buttons: n, refresh: r },
                    ),
                    _ => None,
                }
            } else {
                None
            }
        },
        _ => None,
    }
}

/// `value` read as `Injections` the way serde's derived deserializer reads a
/// JSON value: an object with the three string fields (others ignored), or
/// an array of exactly three strings in field order.
pub open spec fn injections_from(v: Option<Json>) -> Option<InjectionsView> {
    match v {
        Some(Json::Object(entries)) => {
            let o = Json::Object(entries);
            match (
                as_str(json_get(o, "css"@)),
                as_str(json_get(o, "js"@)),
                as_str(json_get(o, "timing"@)),
            ) {
                (Some(c), Some(j), Some(t)) => Some(InjectionsView { css: c, js: j, timing: t }),
                _ => None,
            }
        },
        Some(Json::Array(items)) => {
            if items@.len() == 3 {
                match (items@[0], items@[1], items@[2]) {
                    (Json::Str(c), Json::Str(j), Json::Str(t)) => Some(
                        InjectionsView { css: c@, js: j@, timing: t@ },
                    ),
                    _ => None,
                }
            } else {
                None
            }
        },
        _ => None,
    }
}

pub(crate) fn ui_controls_of(v: Option<&Json>) -> (r: Option<UiControls>)
    ensures
        r == ui_controls_from(opt_ref(v)),
{
    match v {
        Some(Json::Object(_)) => {
            let a = bool_of(get(v.unwrap(), "address_bar"));
            let n = bool_of(get(v.unwrap(), "nav_buttons"));
            let r = bool_of(get(v.unwrap(), "refresh"));
            match (a, n, r) {
                (Some(a), Some(n), Some(r)) => Some(
                    UiControls { address_bar: a, nav_buttons: n, refresh: r },
                ),
                _ => None,
            }
        },
        Some(Json::Array(items)) => {
            if items.len() == 3 {
                match (&items[0], &items[1], &items[2]) {
                    (Json::Bool(a), Json::Bool(n), Json::Bool(r)) => Some(
                        UiControls { address_bar: *a, nav_buttons: *n, refresh: *r },
                    ),
                    _ => None,
                }
            } else {
                None
            }
        },
        _ => None,
    }
}

pub(crate) fn injections_of(v: Option<&Json>) -> (r: Option<Injections>)
    ensures
        match r {
            Some(i) => injections_from(opt_ref(v)) == Some(i@),
            None => injections_from(opt_ref(v)) is None,
        },
{
    match v {
        Some(Json::Object(_)) => {
            let c = str_of(get(v.unwrap(), "css"));
            let j = str_of(get(v.unwrap(), "js"));
            let t = str_of(get(v.unwrap(), "timing"));
            match (c, j, t) {
                (Some(c), Some(j), Some(t)) => Some(
                    Injections {
                        css: owned(c.as_str()),
                        js: owned(j.as_str()),
                        timing: owned(t.as_str()),
                    },
                ),
                _ => None,
            }
        },
        Some(Json::Array(items)) => {
            if items.len() == 3 {
                match (&items[0], &items[1], &items[2]) {
                    (Json::Str(c), Json::Str(j), Json::Str(t)) => Some(
                        Injections {
                            css: owned(c.as_str()),
                            js: owned(j.as_str()),
                            timing: owned(t.as_str()),
                        },
                    ),
                    _ => None,
                }
            } else {
                None
            }
        },
        _ => None,
    }
}

/// The text under `key`, or `default` when there is none.
pub open spec fn str_or(v: Option<Json>, default: Seq<char>) -> Seq<char> {
    match as_str(v) {
        Some(s) => s,
        None => default,
    }
}

/// The non-empty text under `key`, if any.
pub open spec fn nonempty_str(v: Option<Json>) -> Option<Seq<char>> {
    match as_str(v) {
        Some(s) => if s.len() > 0 {
            Some(s)
        } else {
            None
        },
        None => None,
    }
}

/// Why a partial app is refused: `name` or `url` missing or empty (name first).
pub open spec fn partial_app_error(input: Json) -> Option<Seq<char>> {
    if nonempty_str(json_get(input, "name"@)) is None {
        Some("字段 name 必填"@)
    } else if nonempty_str(json_get(input, "url"@)) is None {
        Some("字段 url 必填"@)
    } else {
        None
    }
}

/// The app that a partial JSON description stands for: given fields are
/// taken, the rest default (id and timestamps empty, filled in by the store).
pub open spec fn partial_app(input: Json) -> AppView {
    let hooks = json_get(input, "hooks"@);
    let ho = json_get(input, "hook_options"@);
    AppView {
        id: Seq::empty(),
        name: str_or(json_get(input, "name"@), Seq::empty()),
        url: str_or(json_get(input, "url"@), Seq::empty()),
        runtime_profile: str_or(json_get(input, "runtime_profile"@), "system"@),
        close_action: str_or(json_get(input, "close_action"@), "background"@),
        hooks: HookConfigView {
            pre_launch: string_items(opt_get(hooks, "pre_launch"@)),
            post_exit: string_items(opt_get(hooks, "post_exit"@)),
        },
        hook_options: HookOptionsView {
            shell: str_or(opt_get(ho, "shell"@), "cmd"@),
            timeout_ms: match as_u64(opt_get(ho, "timeout_ms"@)) {
                Some(t) => t,
                None => 30000,
            },
            blocking: match as_bool(opt_get(ho, "blocking"@)) {
                Some(b) => b,
                None => true,
            },
        },
        ui_controls: match ui_controls_from(json_get(input, "ui_controls"@)) {
            Some(u) => u,
            None => default_ui_controls(),
        },
        injections: match injections_from(json_get(input, "injections"@)) {
            Some(i) => i,
            None => default_injections(),
        },
        icon: str_or(json_get(input, "icon"@), Seq::empty()),
        extensions: string_items(json_get(input, "extensions"@)),
        is_system: match as_bool(json_get(input, "is_system"@)) {
            Some(b) => b,
            None => false,
        },
        launch_on_boot: match as_bool(json_get(input, "launch_on_boot"@)) {
            Some(b) => b,
            None => false,
        },
        tags: string_items(json_get(input, "tags"@)),
        created_at: Seq::empty(),
        updated_at: Seq::empty(),
    }
}

/// `got` is the text of the value `v` when it is a string, and `default`
/// otherwise.
pub open spec fn text_field(got: Seq<char>, v: Option<Json>, default: Seq<char>) -> bool {
    &&& as_str(v) matches Some(s) ==> got == s
    &&& as_str(v) is None ==> got == default
}

/// The fields of an app built from a partial JSON description `input`:
/// every field given with the right type is taken as given, every other one
/// takes its default (profile "system", close action "background", shell
/// "cmd", timeout 30000 ms, blocking hooks, hidden window controls, no
/// injections, flags off, no lists), and the id and timestamps are empty.
pub open spec fn partial_fields(a: AppView, input: Json) -> bool {
    let hooks = json_get(input, "hooks"@);
    let ho = json_get(input, "hook_options"@);
    &&& a.id.len() == 0
    &&& a.created_at.len() == 0
    &&& a.updated_at.len() == 0
    &&& as_str(json_get(input, "name"@)) == Some(a.name)
    &&& as_str(json_get(input, "url"@)) == Some(a.url)
    &&& text_field(a.runtime_profile, json_get(input, "runtime_profile"@), "system"@)
    &&& text_field(a.close_action, json_get(input, "close_action"@), "background"@)
    &&& text_field(a.icon, json_get(input, "icon"@), Seq::empty())
    &&& text_field(a.hook_options.shell, opt_get(ho, "shell"@), "cmd"@)
    &&& (as_u64(opt_get(ho, "timeout_ms"@)) matches Some(t) ==> a.hook_options.timeout_ms == t)
    &&& (as_u64(opt_get(ho, "timeout_ms"@)) is None ==> a.hook_options.timeout_ms == 30000)
    &&& (as_bool(opt_get(ho, "blocking"@)) matches Some(b) ==> a.hook_options.blocking == b)
    &&& (as_bool(opt_get(ho, "blocking"@)) is None ==> a.hook_options.blocking)
    &&& (as_bool(json_get(input, "is_system"@)) matches Some(b) ==> a.is_system == b)
    &&& (as_bool(json_get(input, "is_system"@)) is None ==> !a.is_system)
    &&& (as_bool(json_get(input, "launch_on_boot"@)) matches Some(b) ==> a.launch_on_boot == b)
    &&& (as_bool(json_get(input, "launch_on_boot"@)) is None ==> !a.launch_on_boot)
    &&& (ui_controls_from(json_get(input, "ui_controls"@)) matches Some(u) ==> a.ui_controls == u)
    &&& (ui_controls_from(json_get(input, "ui_controls"@)) is None ==> !a.ui_controls.address_bar
        && !a.ui_controls.nav_buttons && !a.ui_controls.refresh)
    &&& (injections_from(json_get(input, "injections"@)) matches Some(i) ==> a.injections == i)
    &&& (injections_from(json_get(input, "injections"@)) is None ==> a.injections.css.len() == 0
        && a.injections.js.len() == 0 && a.injections.timing == "document_idle"@)
    &&& a.hooks.pre_launch == string_items(opt_get(hooks, "pre_launch"@))
    &&& a.hooks.post_exit == string_items(opt_get(hooks, "post_exit"@))
    &&& a.extensions == string_items(json_get(input, "extensions"@))
    &&& a.tags == string_items(json_get(input, "tags"@))
}

/// Law: an accepted partial description gives the app whose fields are the
/// given ones where given (see [`partial_fields`]); e.g. a given
/// `runtime_profile` string is the app's profile.
pub proof fn law_partial_app_fields(input: Json)
    requires
        partial_app_error(input) is None,
    ensures
        partial_fields(partial_app(input), input),
{
}

fn str_or_default(v: Option<&Json>, default: &str) -> (r: String)
    ensures
        r@ == str_or(opt_ref(v), default@),
{
    match str_of(v) {
        Some(s) => owned(s.as_str()),
        None => owned(default),
    }
}

impl App {
    /// Builds an app from a partial JSON description: only `name` and `url`
    /// are required (non-empty strings); every other field takes its value
    /// from the input when it has the right type, and its default otherwise.
    /// The id and the timestamps stay empty.
    pub fn from_partial(input: &Json) -> (r: Result<App, String>)
        ensures
            match r {
                Ok(app) => partial_app_error(*input) is None && app@ == partial_app(*input)
                    && partial_fields(app@, *input),
                Err(e) => partial_app_error(*input) == Some(e@),
            },
    {
        let name = match str_of(get(input, "name")) {
            Some(s) => if s.as_str().is_empty() {
                return Err(owned("字段 name 必填"));
            } else {
                owned(s.as_str())
            },
            None => {
                return Err(owned("字段 name 必填"));
            },
        };
        let url = match str_of(get(input, "url")) {
            Some(s) => if s.as_str().is_empty() {
                return Err(owned("字段 url 必填"));
            } else {
                owned(s.as_str())
            },
            None => {
                return Err(owned("字段 url 必填"));
            },
        };
        let close_action = str_or_default(get(input, "close_action"), "background");
        let runtime_profile = str_or_default(get(input, "runtime_profile"), "system");

        let h = get(input, "hooks");
        let hooks = HookConfig {
            pre_launch: string_items_of(get_opt(h, "pre_launch")),
            post_exit: string_items_of(get_opt(h, "post_exit")),
        };

        let mut hook_options = HookOptions::default();
        let o = get(input, "hook_options");
        if let Some(s) = str_of(get_opt(o, "shell")) {
            hook_options.shell = owned(s.as_str());
        }
        if let Some(t) = u64_of(get_opt(o, "timeout_ms")) {
            hook_options.timeout_ms = t;
        }
        if let Some(b) = bool_of(get_opt(o, "blocking")) {
            hook_options.blocking = b;
        }

        let ui_controls = match ui_controls_of(get(input, "ui_controls")) {
            Some(u) => u,
            None => UiControls::default(),
        };
        let injections = match injections_of(get(input, "injections")) {
            Some(i) => i,
            None => Injections::default(),
        };
        let extensions = string_items_of(get(input, "extensions"));
        let icon = str_or_default(get(input, "icon"), "");
        let is_system = match bool_of(get(input, "is_system")) {
            Some(b) => b,
            None => false,
        };
        let launch_on_boot = match bool_of(get(input, "launch_on_boot")) {
            Some(b) => b,
            None => false,
        };
        let tags = string_items_of(get(input, "tags"));

        let app = App {
            id: String::new(),
            name,
            url,
            runtime_profile,
            close_action,
            hooks,
            hook_options,
            ui_controls,
            injections,
            icon,
            extensions,
            is_system,
            launch_on_boot,
            tags,
            created_at: String::new(),
            updated_at: String::new(),
        };
        proof {
            assert(""@ =~= Seq::<char>::empty()) by {
                reveal_strlit("");
            }
        }
        Ok(app)
    }
}

} // verus!
