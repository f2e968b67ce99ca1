//! The management API's decisions: the session token, the persisted API
//! configuration, which app opens at start-up, request bodies, the
//! command-authorization flow, partial updates, and the platform status.
//! Listening, routing and answering HTTP is done by the caller.
use vstd::prelude::*;
use crate::app_state::{console_app, get_app, is_console_seed, AppState};
use crate::store::merged_app;
use crate::auth::{decision_in, recorded, AuthDecision, AuthStore, Grant};
use crate::icons::{before_first, before_first_of};
use crate::json::{
    entry_lookup, as_bool, as_str, as_u64, bool_of, get, get_opt, json_get, opt_get, opt_ref, str_of,
    string_items, string_items_of, u64_of, views, Json,
};
use crate::text::{chars_of, decimal, has_prefix, hex, hex_char, is_space, is_space_char, owned, push_char, push_decimal, push_hex, push_str, starts_with, str_eq, string_of};
use crate::types::{ApiConfig, ApiError, App, AppStatus, AppView, HookConfig, HookConfigView, HookOptions, HookOptionsView, Injections, InjectionsView, PlatformStatus, injections_from, nonempty_str, partial_app, partial_app_error, str_or, ui_controls_from};

verus! {

// ---------------------------------------------------------------------------
// Session token
// ---------------------------------------------------------------------------

/// The byte at position `i` of a token made from `seed`: the seed's byte at
/// `i` modulo the seed's length, plus `7 * i`, modulo 256.
pub open spec fn token_byte(seed: Seq<char>, i: int) -> nat {
    (((seed[i % (seed.len() as int)] as u32) as nat + 7 * (i as nat)) % 256) as nat
}

/// The session token made from a seed: 32 bytes (see [`token_byte`]) each
/// written as two lowercase hex digits.
pub open spec fn token_of(seed: Seq<char>) -> Seq<char> {
    Seq::new(64, |k: int| if k % 2 == 0 {
        hex_char(token_byte(seed, k / 2) / 16)
    } else {
        hex_char(token_byte(seed, k / 2) % 16)
    })
}

/// The seed of a token: the time in nanoseconds and the process id, both
/// in lowercase hex, joined by `-`.
pub open spec fn token_seed(nanos: nat, pid: nat) -> Seq<char> {
    hex(nanos) + "-"@ + hex(pid)
}

proof fn lemma_hex_ascii(n: nat)
    ensures
        hex(n).len() > 0,
        forall|i: int| 0 <= i < hex(n).len() ==> (hex(n)[i] as u32) < 128,
    decreases n,
{
    if n >= 16 {
        lemma_hex_ascii(n / 16);
    }
}

fn push_hex_byte(s: &mut String, v: u8)
    ensures
        final(s)@ == old(s)@.push(hex_char((v / 16) as nat)).push(hex_char((v % 16) as nat)),
{
    let hi = v / 16;
    let lo = v % 16;
    let mut t = String::new();
    push_hex(&mut t, hi as u128);
    push_hex(&mut t, lo as u128);
    proof {
        assert(hex(hi as nat) =~= seq![hex_char(hi as nat)]);
        assert(hex(lo as nat) =~= seq![hex_char(lo as nat)]);
    }
    let tv = chars_of(t.as_str());
    push_char(s, tv[0]);
    push_char(s, tv[1]);
}

/// The session token made from the time in nanoseconds and the process id
/// (see [`token_of`] and [`token_seed`]): 64 lowercase hex chars. It serves
/// as a session label on the loopback API, not as a secret.
pub fn token_from_seed(nanos: u128, pid: u32) -> (r: String)
    ensures
        r@ == token_of(token_seed(nanos as nat, pid as nat)),
{
    let mut seed = String::new();
    push_hex(&mut seed, nanos);
    push_str(&mut seed, "-");
    push_hex(&mut seed, pid as u128);
    let sv = chars_of(seed.as_str());
    let ghost sd = token_seed(nanos as nat, pid as nat);
    proof {
        assert(seed@ =~= sd);
        lemma_hex_ascii(nanos as nat);
        lemma_hex_ascii(pid as nat);
        reveal_strlit("-");
        let a = hex(nanos as nat);
        let b = hex(pid as nat);
        assert(sd.len() == a.len() + 1 + b.len());
        assert forall|i: int| 0 <= i < sd.len() implies (sd[i] as u32) < 256 by {
            if i < a.len() {
                assert(sd[i] == a[i]);
            } else if i == a.len() {
                assert(sd[i] == '-');
            } else {
                assert(sd[i] == b[i - a.len() - 1]);
            }
        }
    }
    let n = sv.len();
    let mut out = String::new();
    let mut i: usize = 0;
    while i < 32
        invariant
            sv@ == sd,
            n == sd.len(),
            n > 0,
            forall|j: int| 0 <= j < sd.len() ==> (sd[j] as u32) < 256,
            i <= 32,
            out@.len() == 2 * i,
            forall|k: int| 0 <= k < 2 * i ==> out@[k] == token_of(sd)[k],
        decreases 32 - i,
    {
        let c = sv[i % n];
        let b: u8 = (c as u32) as u8;
        let v: u8 = b.wrapping_add((i as u8).wrapping_mul(7));
        proof {
            assert((i as u8) * 7 < 256);
            assert(b as nat == (sd[i as int % n as int] as u32) as nat);
            assert(v as nat == token_byte(sd, i as int));
        }
        let ghost before = out@;
        push_hex_byte(&mut out, v);
        proof {
            assert forall|k: int| 0 <= k < 2 * (i + 1) implies out@[k] == token_of(sd)[k] by {
                if k < 2 * i {
                    assert(out@[k] == before[k]);
                } else if k == 2 * i {
                    assert(k / 2 == i);
                } else {
                    assert(k / 2 == i);
                }
            }
        }
        i += 1;
    }
    proof {
        assert(out@ =~= token_of(sd));
    }
    out
}

/// Law: a session token is 64 lowercase hex chars (32 bytes in hex).
pub proof fn law_token_shape(nanos: nat, pid: nat)
    ensures
        token_of(token_seed(nanos, pid)).len() == 64,
        forall|k: int|
            0 <= k < 64 ==> {
                let c = #[trigger] token_of(token_seed(nanos, pid))[k];
                ('0' <= c && c <= '9') || ('a' <= c && c <= 'f')
            },
{
}

// ---------------------------------------------------------------------------
// API configuration
// ---------------------------------------------------------------------------

/// What a persisted API configuration reads as: the port (kept modulo
/// 2^16, as a `u16` cast keeps it) and the token; `None` when the port is
/// not a non-negative integer or the token is not a string.
pub open spec fn config_read(v: Json) -> Option<(nat, Seq<char>)> {
    match (as_u64(json_get(v, "port"@)), as_str(json_get(v, "token"@))) {
        (Some(p), Some(t)) => Some(((p as nat) % 65536, t)),
        _ => None,
    }
}

/// The persisted API configuration: `{"port": <port>, "token": <token>}`.
pub fn api_config_json(cfg: &ApiConfig) -> (r: Json)
    ensures
        as_u64(json_get(r, "port"@)) == Some(cfg.port as u64),
        as_str(json_get(r, "token"@)) == Some(cfg.token@),
{
    let mut entries: Vec<(String, Json)> = Vec::new();
    entries.push((owned("port"), Json::Number(Some(cfg.port as u64))));
    entries.push((owned("token"), Json::Str(owned(cfg.token.as_str()))));
    let r = Json::Object(entries);
    proof {
        reveal_strlit("port");
        reveal_strlit("token");
        assert(entries@[0].0@ == "port"@);
        assert(entries@.drop_first()[0].0@ == "token"@);
        assert(entry_lookup(entries@.drop_first(), "token"@) == Some(entries@[1].1));
        assert("port"@ != "token"@) by {
            assert("port"@[0] != "token"@[0]);
        }
    }
    r
}

/// The API configuration read back from its persisted JSON (see
/// [`config_read`]).
pub fn api_config_from_json(v: &Json) -> (r: Option<ApiConfig>)
    ensures
        match r {
            Some(cfg) => config_read(*v) == Some((cfg.port as nat, cfg.token@)),
            None => config_read(*v) is None,
        },
{
    let port = match u64_of(get(v, "port")) {
        Some(p) => p,
        None => {
            return None;
        },
    };
    let token = match str_of(get(v, "token")) {
        Some(t) => owned(t.as_str()),
        None => {
            return None;
        },
    };
    Some(ApiConfig { port: (port % 65536) as u16, token })
}

/// Law: the API configuration reads back as it was written: a value with
/// the port and token that [`api_config_json`] writes reads as that port
/// and token.
pub proof fn law_api_config_roundtrip(port: u16, token: Seq<char>, v: Json)
    requires
        as_u64(json_get(v, "port"@)) == Some(port as u64),
        as_str(json_get(v, "token"@)) == Some(token),
    ensures
        config_read(v) == Some((port as nat, token)),
{
}

/// The API configuration after a set: the first configuration set stays,
/// later ones are ignored.
pub open spec fn after_set(cur: Option<ApiConfig>, cfg: ApiConfig) -> Option<ApiConfig> {
    match cur {
        Some(c) => Some(c),
        None => Some(cfg),
    }
}

/// The process's API configuration, set once when the API starts listening
/// (the caller persists it to `api.json` for the client to find).
pub struct ApiConfigSlot {
    cfg: Option<ApiConfig>,
}

impl ApiConfigSlot {
    /// A slot with no configuration yet.
    pub fn new() -> (r: ApiConfigSlot)
        ensures
            r.current() is None,
    {
        ApiConfigSlot { cfg: None }
    }

    /// The configuration held, if any.
    pub closed spec fn current(&self) -> Option<ApiConfig> {
        self.cfg
    }

    /// Records the configuration unless one is already recorded; returns
    /// whether it was recorded.
    pub fn set_api_config(&mut self, cfg: ApiConfig) -> (r: bool)
        ensures
            final(self).current() == after_set(old(self).current(), cfg),
            r == old(self).current() is None,
    {
        if self.cfg.is_none() {
            self.cfg = Some(cfg);
            true
        } else {
            false
        }
    }

    /// The configuration, once the API has started.
    pub fn api_config(&self) -> (r: Option<&ApiConfig>)
        ensures
            match r {
                Some(c) => self.current() == Some(*c),
                None => self.current() is None,
            },
    {
        self.cfg.as_ref()
    }

    /// The configuration as the front end reads it: a placeholder (port 0,
    /// empty token) until the API has started.
    pub fn get_api_config(&self) -> (r: ApiConfig)
        ensures
            self.current() matches Some(c) ==> r.port == c.port && r.token@ == c.token@,
            self.current() is None ==> r.port == 0 && r.token@.len() == 0,
    {
        match &self.cfg {
            Some(c) => ApiConfig { port: c.port, token: owned(c.token.as_str()) },
            None => ApiConfig { port: 0, token: String::new() },
        }
    }
}

/// Law: the first API configuration set stays: setting another one later
/// changes nothing.
pub proof fn law_first_config_stays(cur: Option<ApiConfig>, first: ApiConfig, later: ApiConfig)
    ensures
        after_set(after_set(cur, first), later) == after_set(cur, first),
{
}

/// The console's URL once the API listens on `port`.
pub fn console_url(port: u16) -> (r: String)
    ensures
        r@ == "http://127.0.0.1:"@ + decimal(port as nat),
{
    let mut r = owned("http://127.0.0.1:");
    push_decimal(&mut r, port as u64);
    r
}

// ---------------------------------------------------------------------------
// Start-up target
// ---------------------------------------------------------------------------

/// The app named by the first `--launch=` argument: the text between the
/// first and the second `=` of that argument; "console" when there is none.
pub open spec fn launch_target_of(args: Seq<Seq<char>>) -> Seq<char>
    decreases args.len(),
{
    if args.len() == 0 {
        "console"@
    } else if has_prefix(args[0], "--launch="@) {
        before_first(args[0].skip(9), '=')
    } else {
        launch_target_of(args.drop_first())
    }
}

/// The app to open when another instance forwards its arguments, or at
/// start-up (see [`launch_target_of`]).
pub fn launch_target(args: &Vec<String>) -> (r: String)
    ensures
        r@ == launch_target_of(views(args@)),
{
    let mut i: usize = 0;
    proof {
        assert(views(args@).skip(0) =~= views(args@));
    }
    while i < args.len()
        invariant
            i <= args@.len(),
            launch_target_of(views(args@)) == launch_target_of(views(args@).skip(i as int)),
        decreases args.len() - i,
    {
        proof {
            assert(views(args@).skip(i as int)[0] == args@[i as int]@);
            assert(views(args@).skip(i as int).drop_first() =~= views(args@).skip(i + 1));
        }
        if starts_with(args[i].as_str(), "--launch=") {
            proof {
                reveal_strlit("--launch=");
            }
            let v = chars_of(args[i].as_str());
            let rest = crate::text::string_of_range(&v, 9, v.len());
            let rv = chars_of(rest.as_str());
            proof {
                assert(rv@ =~= args@[i as int]@.skip(9));
            }
            let seg = before_first_of(&rv, '=');
            return string_of(&seg);
        }
        i += 1;
    }
    owned("console")
}

/// The app to open at start-up: none when `--hidden` is given (service
/// mode), otherwise the launch target (see [`launch_target_of`]).
pub fn startup_target(args: &Vec<String>) -> (r: Option<String>)
    ensures
        (exists|i: int| 0 <= i < args@.len() && args@[i]@ == "--hidden"@) ==> r is None,
        !(exists|i: int| 0 <= i < args@.len() && args@[i]@ == "--hidden"@) ==> (r matches Some(t)
            && t@ == launch_target_of(views(args@))),
{
    let mut i: usize = 0;
    while i < args.len()
        invariant
            i <= args@.len(),
            forall|j: int| 0 <= j < i ==> args@[j]@ != "--hidden"@,
        decreases args.len() - i,
    {
        if str_eq(args[i].as_str(), "--hidden") {
            return None;
        }
        i += 1;
    }
    Some(launch_target(args))
}

// ---------------------------------------------------------------------------
// Platform status
// ---------------------------------------------------------------------------

/// The ids of the snapshots in a given state, in order.
pub open spec fn ids_with_status(s: Seq<AppStatus>, status: Seq<char>) -> Seq<Seq<char>>
    decreases s.len(),
{
    if s.len() == 0 {
        Seq::empty()
    } else if s.last().status@ == status {
        ids_with_status(s.drop_last(), status).push(s.last().id@)
    } else {
        ids_with_status(s.drop_last(), status)
    }
}

fn ids_in_state(s: &Vec<AppStatus>, status: &str) -> (r: Vec<String>)
    ensures
        views(r@) == ids_with_status(s@, status@),
{
    let mut out: Vec<String> = Vec::new();
    let mut i: usize = 0;
    while i < s.len()
        invariant
            i <= s@.len(),
            views(out@) == ids_with_status(s@.take(i as int), status@),
        decreases s.len() - i,
    {
        proof {
            assert(s@.take(i + 1).drop_last() =~= s@.take(i as int));
            assert(s@.take(i + 1).last() == s@[i as int]);
        }
        if str_eq(s[i].status.as_str(), status) {
            out.push(owned(s[i].id.as_str()));
            proof {
                assert(views(out@) =~= views(out@.drop_last()).push(s@[i as int].id@));
            }
        }
        i += 1;
    }
    proof {
        assert(s@.take(s@.len() as int) =~= s@);
    }
    out
}

/// The platform status: the ids of the running apps and of the background
/// apps (in the order of the snapshots), the version, the uptime and the
/// port; memory is reported as 0.
pub fn platform_status(statuses: &Vec<AppStatus>, version: &str, uptime_sec: u64, port: u16) -> (r: PlatformStatus)
    ensures
        views(r.running@) == ids_with_status(statuses@, "running"@),
        views(r.background@) == ids_with_status(statuses@, "background"@),
        r.version@ == version@,
        r.uptime_sec == uptime_sec,
        r.memory_kb == 0,
        r.port == port,
{
    PlatformStatus {
        running: ids_in_state(statuses, "running"),
        background: ids_in_state(statuses, "background"),
        version: owned(version),
        uptime_sec,
        memory_kb: 0,
        port,
    }
}

/// The status snapshot of one app as the status endpoint reports it.
pub fn app_status_snapshot(state: &AppState, id: &str) -> (r: AppStatus)
    requires
        state.wf(),
    ensures
        r.id@ == id@,
        r.status@ == crate::app_state::status_in(state.table(), id@),
        r.window_id is None,
        r.memory_kb is None,
        r.started_at is None,
{
    AppStatus {
        id: owned(id),
        status: state.app_status(id),
        window_id: None,
        memory_kb: None,
        started_at: None,
    }
}

// ---------------------------------------------------------------------------
// Command authorization flow
// ---------------------------------------------------------------------------

/// The non-empty `command` string of a request body.
pub fn command_of(body: &Json) -> (r: Option<String>)
    ensures
        match r {
            Some(c) => crate::types::nonempty_str(json_get(*body, "command"@)) == Some(c@),
            None => crate::types::nonempty_str(json_get(*body, "command"@)) is None,
        },
{
    match str_of(get(body, "command")) {
        Some(c) => if c.as_str().is_empty() {
            None
        } else {
            Some(owned(c.as_str()))
        },
        None => None,
    }
}

/// A boolean flag of a request body; false when absent.
pub fn flag_of(body: &Json, key: &str) -> (r: bool)
    ensures
        r == (as_bool(json_get(*body, key@)) == Some(true)),
{
    match bool_of(get(body, key)) {
        Some(b) => b,
        None => false,
    }
}

/// The answer to a command request.
#[derive(Debug, Clone, Copy, PartialEq, Eq)]
pub enum ExecStep {
    /// Run the command.
    Run,
    /// Refuse: a refusal is remembered ("该命令已被拒绝执行").
    RefusedByGrant,
    /// Refuse: the user has just refused ("用户拒绝执行该命令").
    RefusedByUser,
    /// Ask the user (the bridge shows the approval dialog).
    AskUser,
}

/// The answer to a command request given what is remembered.
pub open spec fn exec_step_of(d: Option<AuthDecision>) -> ExecStep {
    match d {
        Some(d) => if d.allowed {
            ExecStep::Run
        } else {
            ExecStep::RefusedByGrant
        },
        None => ExecStep::AskUser,
    }
}

/// The answer to a page's request to run a command: run it when the app and
/// command are remembered as allowed, refuse it when remembered as refused,
/// otherwise ask the user.
pub fn exec_step(auth: &AuthStore, app_id: &str, command: &str) -> (r: ExecStep)
    requires
        auth.wf(),
    ensures
        r == exec_step_of(decision_in(auth@, app_id@, command@)),
{
    match auth.check(app_id, command) {
        Some(d) => if d.allowed {
            ExecStep::Run
        } else {
            ExecStep::RefusedByGrant
        },
        None => ExecStep::AskUser,
    }
}

/// The user's answer to the approval dialog: when `remember` is set the
/// decision is remembered (the caller persists the store); the command runs
/// when allowed and is refused otherwise.
pub fn approve_step(auth: &mut AuthStore, app_id: &str, command: &str, allow: bool, remember: bool) -> (r: ExecStep)
    requires
        old(auth).wf(),
    ensures
        final(auth).wf(),
        final(auth).path_view() == old(auth).path_view(),
        remember ==> recorded(old(auth)@, final(auth)@, app_id@, command@, allow),
        !remember ==> final(auth)@ == old(auth)@,
        r == (if allow {
            ExecStep::Run
        } else {
            ExecStep::RefusedByUser
        }),
{
    if remember {
        auth.record(app_id, command, allow);
    }
    if allow {
        ExecStep::Run
    } else {
        ExecStep::RefusedByUser
    }
}

/// Law: once the user's decision is remembered, the same app asking for the
/// same command is answered without asking: it runs when allowed and is
/// refused when refused (app ids without NUL chars).
pub proof fn law_remembered_decision_is_not_asked_again(
    before: Map<Seq<char>, Grant>,
    after: Map<Seq<char>, Grant>,
    app_id: Seq<char>,
    command: Seq<char>,
    allow: bool,
)
    requires
        recorded(before, after, app_id, command, allow),
        crate::auth::nul_free(app_id),
    ensures
        exec_step_of(decision_in(after, app_id, command)) == (if allow {
            ExecStep::Run
        } else {
            ExecStep::RefusedByGrant
        }),
{
    crate::auth::law_record_then_check(before, after, app_id, command, allow, app_id, command);
}

/// The words of a text: its runs of non-White_Space chars, in order
/// (std's `split_whitespace`).
pub open spec fn words(s: Seq<char>) -> Seq<Seq<char>>
    decreases s.len(),
{
    words_acc(s, Seq::empty(), Seq::empty())
}

/// Words of `s` after the words `done` and a current word `cur`.
pub open spec fn words_acc(s: Seq<char>, done: Seq<Seq<char>>, cur: Seq<char>) -> Seq<Seq<char>>
    decreases s.len(),
{
    if s.len() == 0 {
        if cur.len() > 0 {
            done.push(cur)
        } else {
            done
        }
    } else if is_space_char(s[0]) {
        if cur.len() > 0 {
            words_acc(s.drop_first(), done.push(cur), Seq::empty())
        } else {
            words_acc(s.drop_first(), done, Seq::empty())
        }
    } else {
        words_acc(s.drop_first(), done, cur.push(s[0]))
    }
}

/// The words of a command line (see [`words`]).
pub fn split_words(s: &str) -> (r: Vec<String>)
    ensures
        views(r@) == words(s@),
{
    let v = chars_of(s);
    let mut done: Vec<String> = Vec::new();
    let mut cur: Vec<char> = Vec::new();
    let mut i: usize = 0;
    proof {
        assert(s@.skip(0) =~= s@);
        assert(views(done@) =~= Seq::<Seq<char>>::empty());
    }
    while i < v.len()
        invariant
            v@ == s@,
            i <= v@.len(),
            words(s@) == words_acc(s@.skip(i as int), views(done@), cur@),
        decreases v.len() - i,
    {
        proof {
            assert(s@.skip(i as int)[0] == v@[i as int]);
            assert(s@.skip(i as int).drop_first() =~= s@.skip(i + 1));
        }
        let c = v[i];
        if is_space(c) {
            if cur.len() > 0 {
                let w = string_of(&cur);
                let ghost before = done@;
                done.push(w);
                proof {
                    assert(views(done@) =~= views(before).push(cur@));
                }
                cur = Vec::new();
            } else {
                cur = Vec::new();
            }
        } else {
            cur.push(c);
        }
        i += 1;
    }
    proof {
        assert(s@.skip(i as int) =~= Seq::<char>::empty());
    }
    if cur.len() > 0 {
        let w = string_of(&cur);
        let ghost before = done@;
        done.push(w);
        proof {
            assert(views(done@) =~= views(before).push(cur@));
        }
    }
    done
}

/// A command line split into its program and arguments (its first word and
/// the rest); `None` for a command line without words.
pub fn split_command(command: &str) -> (r: Option<(String, Vec<String>)>)
    ensures
        match r {
            Some((p, args)) => words(command@).len() > 0 && p@ == words(command@)[0] && views(args@)
                == words(command@).drop_first(),
            None => words(command@).len() == 0,
        },
{
    let mut ws = split_words(command);
    if ws.len() == 0 {
        return None;
    }
    let p = ws.remove(0);
    proof {
        assert(views(ws@) =~= words(command@).drop_first());
    }
    Some((p, ws))
}

// ---------------------------------------------------------------------------
// Partial updates and deletion
// ---------------------------------------------------------------------------

/// The app that a partial update body stands for, over an existing app:
/// a given field is taken, and a missing field keeps the existing app's
/// value (name and url also when given empty); text and list fields
/// without a default stay empty so that the store keeps them.
pub open spec fn patch_app(patch: Json, e: AppView) -> AppView {
    let hooks = json_get(patch, "hooks"@);
    let ho = json_get(patch, "hook_options"@);
    AppView {
        id: Seq::empty(),
        name: match nonempty_str(json_get(patch, "name"@)) {
            Some(s) => s,
            None => e.name,
        },
        url: match nonempty_str(json_get(patch, "url"@)) {
            Some(s) => s,
            None => e.url,
        },
        runtime_profile: str_or(json_get(patch, "runtime_profile"@), e.runtime_profile),
        close_action: str_or(json_get(patch, "close_action"@), e.close_action),
        hooks: HookConfigView {
            pre_launch: string_items(opt_get(hooks, "pre_launch"@)),
            post_exit: string_items(opt_get(hooks, "post_exit"@)),
        },
        hook_options: HookOptionsView {
            shell: str_or(opt_get(ho, "shell"@), e.hook_options.shell),
            timeout_ms: match as_u64(opt_get(ho, "timeout_ms"@)) {
                Some(t) => t,
                None => e.hook_options.timeout_ms,
            },
            blocking: match as_bool(opt_get(ho, "blocking"@)) {
                Some(b) => b,
                None => e.hook_options.blocking,
            },
        },
        ui_controls: match ui_controls_from(json_get(patch, "ui_controls"@)) {
            Some(u) => u,
            None => e.ui_controls,
        },
        injections: match injections_from(json_get(patch, "injections"@)) {
            Some(i) => i,
            None => InjectionsView { css: Seq::empty(), js: Seq::empty(), timing: e.injections.timing },
        },
        icon: str_or(json_get(patch, "icon"@), Seq::empty()),
        extensions: string_items(json_get(patch, "extensions"@)),
        is_system: match as_bool(json_get(patch, "is_system"@)) {
            Some(b) => b,
            None => e.is_system,
        },
        launch_on_boot: match as_bool(json_get(patch, "launch_on_boot"@)) {
            Some(b) => b,
            None => e.launch_on_boot,
        },
        tags: string_items(json_get(patch, "tags"@)),
        created_at: Seq::empty(),
        updated_at: Seq::empty(),
    }
}

fn str_or_keep_of(v: Option<&Json>, keep: &String) -> (r: String)
    ensures
        r@ == str_or(opt_ref(v), keep@),
{
    match str_of(v) {
        Some(s) => owned(s.as_str()),
        None => owned(keep.as_str()),
    }
}

/// The patch app of an update request: without an existing app the body
/// must be a full partial app (see `App::from_partial`); over an existing
/// app every missing field keeps its value (see [`patch_app`]), and the
/// request is refused only when the name or url would end up empty.
pub fn update_patch(patch: &Json, existing: Option<&App>) -> (r: Result<App, String>)
    ensures
        existing is None ==> match r {
            Ok(app) => partial_app_error(*patch) is None && app@ == partial_app(*patch),
            Err(e) => partial_app_error(*patch) == Some(e@),
        },
        existing matches Some(e) ==> match r {
            Ok(app) => app@ == patch_app(*patch, e@) && app@.name.len() > 0 && app@.url.len() > 0,
            Err(msg) => (patch_app(*patch, e@).name.len() == 0 && msg@ == "字段 name 必填"@) || (
            patch_app(*patch, e@).name.len() > 0 && patch_app(*patch, e@).url.len() == 0 && msg@
                == "字段 url 必填"@),
        },
{
    let e = match existing {
        None => {
            return App::from_partial(patch);
        },
        Some(e) => e,
    };
    let name = match str_of(get(patch, "name")) {
        Some(s) => if s.as_str().is_empty() {
            owned(e.name.as_str())
        } else {
            owned(s.as_str())
        },
        None => owned(e.name.as_str()),
    };
    if name.as_str().is_empty() {
        return Err(owned("字段 name 必填"));
    }
    let url = match str_of(get(patch, "url")) {
        Some(s) => if s.as_str().is_empty() {
            owned(e.url.as_str())
        } else {
            owned(s.as_str())
        },
        None => owned(e.url.as_str()),
    };
    if url.as_str().is_empty() {
        return Err(owned("字段 url 必填"));
    }
    let h = get(patch, "hooks");
    let o = get(patch, "hook_options");
    let hook_options = HookOptions {
        shell: str_or_keep_of(get_opt(o, "shell"), &e.hook_options.shell),
        timeout_ms: match u64_of(get_opt(o, "timeout_ms")) {
            Some(t) => t,
            None => e.hook_options.timeout_ms,
        },
        blocking: match bool_of(get_opt(o, "blocking")) {
            Some(b) => b,
            None => e.hook_options.blocking,
        },
    };
    let ui_controls = match crate::types::ui_controls_of(get(patch, "ui_controls")) {
        Some(u) => u,
        None => e.ui_controls,
    };
    let injections = match crate::types::injections_of(get(patch, "injections")) {
        Some(i) => i,
        None => Injections {
            css: String::new(),
            js: String::new(),
            timing: owned(e.injections.timing.as_str()),
        },
    };
    let app = App {
        id: String::new(),
        name,
        url,
        runtime_profile: str_or_keep_of(get(patch, "runtime_profile"), &e.runtime_profile),
        close_action: str_or_keep_of(get(patch, "close_action"), &e.close_action),
        hooks: HookConfig {
            pre_launch: string_items_of(get_opt(h, "pre_launch")),
            post_exit: string_items_of(get_opt(h, "post_exit")),
        },
        hook_options,
        ui_controls,
        injections,
        icon: {
            let empty = String::new();
            str_or_keep_of(get(patch, "icon"), &empty)
        },
        extensions: string_items_of(get(patch, "extensions")),
        is_system: match bool_of(get(patch, "is_system")) {
            Some(b) => b,
            None => e.is_system,
        },
        launch_on_boot: match bool_of(get(patch, "launch_on_boot")) {
            Some(b) => b,
            None => e.launch_on_boot,
        },
        tags: string_items_of(get(patch, "tags")),
        created_at: String::new(),
        updated_at: String::new(),
    };
    Ok(app)
}

/// Why an app may not be deleted: a system app (the console) is kept.
pub fn delete_refusal(app: &App) -> (r: Option<ApiError>)
    ensures
        app.is_system ==> (r matches Some(e) && e.error@ == "cannot_delete_system_app"@ && e.message@
            == "系统应用不可删除"@),
        !app.is_system ==> r is None,
{
    if app.is_system {
        Some(ApiError::new("cannot_delete_system_app", "系统应用不可删除"))
    } else {
        None
    }
}

/// Law: a partial update keeps every field that the request body leaves
/// out: merging the patch app of a body into the existing app (the store's
/// merge, see `merged_app`) changes no field whose key the body lacks, and
/// keeps the id and the creation time.
pub proof fn law_partial_update_keeps_missing_fields(patch: Json, e: AppView, now: Seq<char>)
    ensures
        ({
            let m = merged_app(e, patch_app(patch, e), now);
            &&& m.id == e.id
            &&& m.created_at == e.created_at
            &&& json_get(patch, "name"@) is None ==> m.name == e.name
            &&& json_get(patch, "url"@) is None ==> m.url == e.url
            &&& json_get(patch, "runtime_profile"@) is None ==> m.runtime_profile == e.runtime_profile
            &&& json_get(patch, "close_action"@) is None ==> m.close_action == e.close_action
            &&& json_get(patch, "hooks"@) is None ==> m.hooks == e.hooks
            &&& json_get(patch, "hook_options"@) is None ==> m.hook_options == e.hook_options
            &&& json_get(patch, "ui_controls"@) is None ==> m.ui_controls == e.ui_controls
            &&& json_get(patch, "injections"@) is None ==> m.injections == e.injections
            &&& json_get(patch, "icon"@) is None ==> m.icon == e.icon
            &&& json_get(patch, "extensions"@) is None ==> m.extensions == e.extensions
            &&& json_get(patch, "is_system"@) is None ==> m.is_system == e.is_system
            &&& json_get(patch, "launch_on_boot"@) is None ==> m.launch_on_boot == e.launch_on_boot
            &&& json_get(patch, "tags"@) is None ==> m.tags == e.tags
        }),
{
    let p = patch_app(patch, e);
    let m = merged_app(e, p, now);
    if json_get(patch, "hooks"@) is None {
        assert(string_items(opt_get(json_get(patch, "hooks"@), "pre_launch"@)) =~= Seq::empty());
        assert(string_items(opt_get(json_get(patch, "hooks"@), "post_exit"@)) =~= Seq::empty());
        assert(m.hooks == e.hooks);
    }
    if json_get(patch, "extensions"@) is None {
        assert(string_items(json_get(patch, "extensions"@)) =~= Seq::empty());
    }
    if json_get(patch, "tags"@) is None {
        assert(string_items(json_get(patch, "tags"@)) =~= Seq::empty());
    }
}

/// What a delete request does.
#[derive(Debug)]
pub enum DeleteStep {
    /// Refuse with this error (a system app).
    Refuse(ApiError),
    /// The app is running: stop it, then delete its configuration.
    StopThenDelete,
    /// Delete its configuration.
    Delete,
}

/// The delete rule: a system app is refused (see [`delete_refusal`]); a
/// running app is stopped first; any other app is deleted.
pub fn delete_step(app: &App, state: &AppState) -> (r: DeleteStep)
    requires
        state.wf(),
    ensures
        app.is_system ==> (r matches DeleteStep::Refuse(e) && e.error@ == "cannot_delete_system_app"@
            && e.message@ == "系统应用不可删除"@),
        !app.is_system && state.table().contains_key(app.id@) ==> r is StopThenDelete,
        !app.is_system && !state.table().contains_key(app.id@) ==> r is Delete,
{
    match delete_refusal(app) {
        Some(e) => DeleteStep::Refuse(e),
        None => if state.is_running(app.id.as_str()) {
            DeleteStep::StopThenDelete
        } else {
            DeleteStep::Delete
        },
    }
}

/// What a restore request does.
#[derive(Debug)]
pub enum RestoreStep {
    /// The app is stored (at this position of the listing): answer it.
    Existing(usize),
    /// The console is missing: store this rebuilt console and answer it.
    Recreate(App),
    /// No such app, and not the console: not found.
    NotFound,
}

/// The restore rule over a store listing: a stored app is answered as it
/// is; a missing console is rebuilt; any other missing app is not found.
pub fn restore_step(apps: &Vec<App>, id: &str) -> (r: RestoreStep)
    ensures
        (exists|j: int| 0 <= j < apps@.len() && apps@[j].id@ == id@) <==> r is Existing,
        r matches RestoreStep::Existing(i) ==> i < apps@.len() && apps@[i as int].id@ == id@,
        r matches RestoreStep::Recreate(c) ==> id@ == "console"@ && is_console_seed(c@),
        r is NotFound ==> id@ != "console"@ && forall|j: int| 0 <= j < apps@.len() ==> apps@[j].id@ != id@,
        (forall|j: int| 0 <= j < apps@.len() ==> apps@[j].id@ != id@) && id@ == "console"@ ==> r is Recreate,
{
    match get_app(apps, id) {
        Some(i) => RestoreStep::Existing(i),
        None => if str_eq(id, "console") {
            RestoreStep::Recreate(console_app())
        } else {
            RestoreStep::NotFound
        },
    }
}

/// The icon for a desktop shortcut: the request's `icon` string when given,
/// else the app's own icon when it has one, else none.
pub fn shortcut_icon(body: Option<&Json>, app: &App) -> (r: Option<String>)
    ensures
        as_str(opt_get(opt_ref(body), "icon"@)) matches Some(i) ==> (r matches Some(x) && x@ == i),
        as_str(opt_get(opt_ref(body), "icon"@)) is None && app.icon@.len() > 0 ==> (r matches Some(x)
            && x@ == app.icon@),
        as_str(opt_get(opt_ref(body), "icon"@)) is None && app.icon@.len() == 0 ==> r is None,
{
    match str_of(get_opt(body, "icon")) {
        Some(i) => Some(owned(i.as_str())),
        None => if app.icon.as_str().is_empty() {
            None
        } else {
            Some(owned(app.icon.as_str()))
        },
    }
}

} // verus!
