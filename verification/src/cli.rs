//! The command-line client's rules: which invocations are commands rather
//! than the desktop host, how its short options are read, how a URL and a
//! hook list given on the command line are normalised, what an add request
//! holds, and how a response of the management API is read. Sending the
//! requests and printing is done by the caller.
use vstd::prelude::*;
use crate::json::{as_str, get, json_get, str_items, str_of, views, Json};
use crate::text::{
    chars_of, concat2, concat3, decimal, has_prefix, lemma_trim_fixed, lemma_trim_shape, owned,
    push_decimal, push_str, starts_with, str_eq, string_of, trim, trim_seq, is_space_char,
};

verus! {

// ---------------------------------------------------------------------------
// Invocation
// ---------------------------------------------------------------------------

/// The words that make an invocation a command of the client.
pub open spec fn is_subcommand(a: Seq<char>) -> bool {
    a == "add"@ || a == "addweb"@ || a == "app"@ || a == "status"@ || a == "console"@ || a
        == "version"@ || a == "help"@ || a == "--help"@ || a == "-h"@
}

/// The arguments that keep an invocation in host mode whatever else is given:
/// a forwarded launch and the hidden service start.
pub open spec fn is_host_flag(a: Seq<char>) -> bool {
    a == "--launch"@ || a == "--hidden"@
}

/// Whether the arguments (without the program name) ask for the client:
/// some argument is a command word and none is a host flag.
pub open spec fn is_cli_args(args: Seq<Seq<char>>) -> bool {
    (exists|i: int| 0 <= i < args.len() && #[trigger] is_subcommand(args[i])) && !(exists|i: int|
        0 <= i < args.len() && #[trigger] is_host_flag(args[i]))
}

fn subcommand_word(a: &str) -> (r: bool)
    ensures
        r == is_subcommand(a@),
{
    str_eq(a, "add") || str_eq(a, "addweb") || str_eq(a, "app") || str_eq(a, "status") || str_eq(
        a,
        "console",
    ) || str_eq(a, "version") || str_eq(a, "help") || str_eq(a, "--help") || str_eq(a, "-h")
}

fn host_flag(a: &str) -> (r: bool)
    ensures
        r == is_host_flag(a@),
{
    str_eq(a, "--launch") || str_eq(a, "--hidden")
}

/// Whether one executable runs as the client (see [`is_cli_args`]) or as
/// the desktop host.
pub fn is_cli_invocation(args: &Vec<String>) -> (r: bool)
    ensures
        r == is_cli_args(views(args@)),
{
    let ghost a = views(args@);
    let mut any_cmd = false;
    let mut any_host = false;
    let mut i: usize = 0;
    while i < args.len()
        invariant
            a == views(args@),
            i <= args@.len(),
            any_cmd == (exists|k: int| 0 <= k < i && #[trigger] is_subcommand(a[k])),
            any_host == (exists|k: int| 0 <= k < i && #[trigger] is_host_flag(a[k])),
        decreases args.len() - i,
    {
        let s = args[i].as_str();
        proof {
            assert(a[i as int] == s@);
        }
        if subcommand_word(s) {
            any_cmd = true;
        }
        if host_flag(s) {
            any_host = true;
        }
        i += 1;
    }
    any_cmd && !any_host
}

/// The long option that a familiar multi-letter short option stands for
/// (`-url` is `--url`, `-hook` is `--pre`, ...); any other argument as it is.
pub open spec fn long_form(a: Seq<char>) -> Seq<char> {
    if a == "-url"@ {
        "--url"@
    } else if a == "-name"@ || a == "-n"@ {
        "--name"@
    } else if a == "-hook"@ {
        "--pre"@
    } else if a == "-hook_exit"@ || a == "-post"@ {
        "--post"@
    } else if a == "-close"@ {
        "--close"@
    } else if a == "-shell"@ {
        "--shell"@
    } else if a == "-timeout"@ {
        "--timeout"@
    } else {
        a
    }
}

/// One argument in its long form (see [`long_form`]).
pub fn normalize_cli_arg(a: &str) -> (r: String)
    ensures
        r@ == long_form(a@),
{
    if str_eq(a, "-url") {
        owned("--url")
    } else if str_eq(a, "-name") || str_eq(a, "-n") {
        owned("--name")
    } else if str_eq(a, "-hook") {
        owned("--pre")
    } else if str_eq(a, "-hook_exit") || str_eq(a, "-post") {
        owned("--post")
    } else if str_eq(a, "-close") {
        owned("--close")
    } else if str_eq(a, "-shell") {
        owned("--shell")
    } else if str_eq(a, "-timeout") {
        owned("--timeout")
    } else {
        owned(a)
    }
}

/// All arguments in their long forms, in order.
pub fn normalize_cli_args(args: &Vec<String>) -> (r: Vec<String>)
    ensures
        views(r@) == views(args@).map_values(|a: Seq<char>| long_form(a)),
{
    let mut out: Vec<String> = Vec::new();
    let mut i: usize = 0;
    while i < args.len()
        invariant
            i <= args@.len(),
            out@.len() == i,
            forall|k: int| 0 <= k < i ==> #[trigger] out@[k]@ == long_form(args@[k]@),
        decreases args.len() - i,
    {
        out.push(normalize_cli_arg(args[i].as_str()));
        i += 1;
    }
    proof {
        assert(views(out@) =~= views(args@).map_values(|a: Seq<char>| long_form(a)));
    }
    out
}

// ---------------------------------------------------------------------------
// URL and hook list
// ---------------------------------------------------------------------------

/// Whether a URL names its scheme (`http://` or `https://`).
pub open spec fn has_scheme(u: Seq<char>) -> bool {
    has_prefix(u, "http://"@) || has_prefix(u, "https://"@)
}

/// A URL as the user typed it, normalised: trimmed, and with `http://` put
/// in front when it names no scheme; the user's text is kept as it is
/// otherwise (a trailing slash too). `None` for a blank URL.
pub open spec fn normalized_url(url: Seq<char>) -> Option<Seq<char>> {
    let t = trim_seq(url);
    if t.len() == 0 {
        None
    } else if has_scheme(t) {
        Some(t)
    } else {
        Some("http://"@ + t)
    }
}

/// The URL to register (see [`normalized_url`]); a blank URL is refused
/// with "URL 不能为空".
pub fn normalize_url(url: &str) -> (r: Result<String, String>)
    ensures
        match r {
            Ok(u) => normalized_url(url@) == Some(u@),
            Err(e) => normalized_url(url@) is None && e@ == "URL 不能为空"@,
        },
{
    let t = trim(url);
    if t.as_str().is_empty() {
        return Err(owned("URL 不能为空"));
    }
    if starts_with(t.as_str(), "http://") || starts_with(t.as_str(), "https://") {
        Ok(t)
    } else {
        Ok(concat2("http://", t.as_str()))
    }
}

/// Law: a normalised URL names its scheme, and normalising it again
/// changes nothing.
pub proof fn law_normalized_url_is_stable(url: Seq<char>)
    requires
        normalized_url(url) is Some,
    ensures
        has_scheme(normalized_url(url)->0),
        normalized_url(normalized_url(url)->0) == normalized_url(url),
{
    let t = trim_seq(url);
    lemma_trim_shape(url);
    lemma_trim_fixed(t);
    reveal_strlit("http://");
    reveal_strlit("https://");
    if !has_scheme(t) {
        let u = "http://"@ + t;
        assert(u.take(7) =~= "http://"@);
        assert(u[0] == 'h');
        assert(u.last() == t.last());
        lemma_trim_fixed(u);
    }
}

/// The hooks of a `;`-separated list after the items `done`, with `cur` the
/// item being read: each item trimmed, blank items left out.
pub open spec fn hook_items_acc(s: Seq<char>, done: Seq<Seq<char>>, cur: Seq<char>) -> Seq<Seq<char>>
    decreases s.len(),
{
    if s.len() == 0 {
        with_item(done, cur)
    } else if s[0] == ';' {
        hook_items_acc(s.drop_first(), with_item(done, cur), Seq::empty())
    } else {
        hook_items_acc(s.drop_first(), done, cur.push(s[0]))
    }
}

/// `done` followed by the trimmed item when it is not blank.
pub open spec fn with_item(done: Seq<Seq<char>>, item: Seq<char>) -> Seq<Seq<char>> {
    if trim_seq(item).len() > 0 {
        done.push(trim_seq(item))
    } else {
        done
    }
}

/// The hooks of a `;`-separated list: its items, trimmed, blank ones left out.
pub open spec fn hook_items(s: Seq<char>) -> Seq<Seq<char>> {
    hook_items_acc(s, Seq::empty(), Seq::empty())
}

/// The hooks of a `;`-separated list (see [`hook_items`]).
pub fn split_hooks(s: &str) -> (r: Vec<String>)
    ensures
        views(r@) == hook_items(s@),
{
    let v = chars_of(s);
    let mut done: Vec<String> = Vec::new();
    let mut cur: Vec<char> = Vec::new();
    let mut i: usize = 0;
    proof {
        assert(s@.skip(0) =~= s@);
        assert(views(done@) =~= Seq::<Seq<char>>::empty());
    }
    while i < v.len()
        invariant
            v@ == s@,
            i <= v@.len(),
            hook_items(s@) == hook_items_acc(s@.skip(i as int), views(done@), cur@),
        decreases v.len() - i,
    {
        proof {
            assert(s@.skip(i as int)[0] == v@[i as int]);
            assert(s@.skip(i as int).drop_first() =~= s@.skip(i + 1));
        }
        let c = v[i];
        if c == ';' {
            push_item(&mut done, &cur);
            cur = Vec::new();
        } else {
            cur.push(c);
        }
        i += 1;
    }
    proof {
        assert(s@.skip(i as int) =~= Seq::<char>::empty());
    }
    push_item(&mut done, &cur);
    done
}

fn push_item(done: &mut Vec<String>, cur: &Vec<char>)
    ensures
        views(final(done)@) == with_item(views(old(done)@), cur@),
{
    let t = trim(string_of(cur).as_str());
    if !t.as_str().is_empty() {
        let ghost before = done@;
        done.push(t);
        proof {
            assert(views(done@) =~= views(before).push(trim_seq(cur@)));
        }
    }
}

/// Items that hold a hook: not blank, with no White_Space at their ends and
/// no `;` in them.
pub open spec fn clean_items(items: Seq<Seq<char>>) -> bool {
    forall|i: int|
        0 <= i < items.len() ==> {
            let it = #[trigger] items[i];
            &&& it.len() > 0
            &&& !is_space_char(it[0])
            &&& !is_space_char(it.last())
            &&& !it.contains(';')
        }
}

proof fn lemma_with_item_clean(done: Seq<Seq<char>>, cur: Seq<char>)
    requires
        clean_items(done),
        !cur.contains(';'),
    ensures
        clean_items(with_item(done, cur)),
{
    let t = trim_seq(cur);
    lemma_trim_shape(cur);
    if t.len() > 0 {
        let (a, b) = choose|a: int, b: int| 0 <= a <= b <= cur.len() && t == cur.subrange(a, b);
        assert forall|k: int| 0 <= k < t.len() implies t[k] != ';' by {
            assert(t[k] == cur[a + k]);
        }
        let d = done.push(t);
        assert forall|i: int| 0 <= i < d.len() implies {
            let it = #[trigger] d[i];
            &&& it.len() > 0
            &&& !is_space_char(it[0])
            &&& !is_space_char(it.last())
            &&& !it.contains(';')
        } by {
            if i < done.len() {
                assert(d[i] == done[i]);
            }
        }
    }
}

proof fn lemma_hook_items_acc_clean(s: Seq<char>, done: Seq<Seq<char>>, cur: Seq<char>)
    requires
        clean_items(done),
        !cur.contains(';'),
    ensures
        clean_items(hook_items_acc(s, done, cur)),
    decreases s.len(),
{
    if s.len() == 0 {
        lemma_with_item_clean(done, cur);
    } else if s[0] == ';' {
        lemma_with_item_clean(done, cur);
        lemma_hook_items_acc_clean(s.drop_first(), with_item(done, cur), Seq::empty());
    } else {
        assert(!cur.push(s[0]).contains(';')) by {
            assert forall|k: int| 0 <= k < cur.push(s[0]).len() implies cur.push(s[0])[k] != ';' by {
                if k < cur.len() {
                    assert(cur.push(s[0])[k] == cur[k]);
                }
            }
        }
        lemma_hook_items_acc_clean(s.drop_first(), done, cur.push(s[0]));
    }
}

/// Law: every hook read from a `;`-separated list is non-blank, has no
/// White_Space at its ends and holds no `;`.
pub proof fn law_hook_items_clean(s: Seq<char>)
    ensures
        clean_items(hook_items(s)),
{
    lemma_hook_items_acc_clean(s, Seq::empty(), Seq::empty());
}

// ---------------------------------------------------------------------------
// Add request
// ---------------------------------------------------------------------------

/// What `add` sends to create an app: the name, the normalised URL, the
/// close action, the hooks split from their `;` lists, the hook shell and
/// timeout, and blocking hooks.
pub struct AddRequest {
    pub name: String,
    pub url: String,
    pub close_action: String,
    pub pre_launch: Vec<String>,
    pub post_exit: Vec<String>,
    pub shell: String,
    pub timeout_ms: u64,
    pub blocking: bool,
}

/// The hooks of an optional `;`-separated list (none when absent).
pub open spec fn opt_hook_items(s: Option<&str>) -> Seq<Seq<char>> {
    match s {
        Some(t) => hook_items(t@),
        None => Seq::empty(),
    }
}

fn opt_split_hooks(s: Option<&str>) -> (r: Vec<String>)
    ensures
        views(r@) == opt_hook_items(s),
{
    match s {
        Some(t) => split_hooks(t),
        None => {
            let r: Vec<String> = Vec::new();
            proof {
                assert(views(r@) =~= Seq::<Seq<char>>::empty());
            }
            r
        },
    }
}

/// The add request for the given options; refused, as [`normalize_url`]
/// refuses, when the URL is blank.
pub fn add_request(
    name: &str,
    url: &str,
    close: &str,
    pre: Option<&str>,
    post: Option<&str>,
    shell: &str,
    timeout: u64,
) -> (r: Result<AddRequest, String>)
    ensures
        match r {
            Ok(q) => {
                &&& normalized_url(url@) == Some(q.url@)
                &&& q.name@ == name@
                &&& q.close_action@ == close@
                &&& views(q.pre_launch@) == opt_hook_items(pre)
                &&& views(q.post_exit@) == opt_hook_items(post)
                &&& q.shell@ == shell@
                &&& q.timeout_ms == timeout
                &&& q.blocking
            },
            Err(e) => normalized_url(url@) is None && e@ == "URL 不能为空"@,
        },
{
    let url = match normalize_url(url) {
        Ok(u) => u,
        Err(e) => {
            return Err(e);
        },
    };
    Ok(AddRequest {
        name: owned(name),
        url,
        close_action: owned(close),
        pre_launch: opt_split_hooks(pre),
        post_exit: opt_split_hooks(post),
        shell: owned(shell),
        timeout_ms: timeout,
        blocking: true,
    })
}

// ---------------------------------------------------------------------------
// Requests and responses
// ---------------------------------------------------------------------------

/// The URL of an API path on the local daemon.
pub fn api_url(port: u16, path: &str) -> (r: String)
    ensures
        r@ == "http://127.0.0.1:"@ + decimal(port as nat) + path@,
{
    let mut r = owned("http://127.0.0.1:");
    push_decimal(&mut r, port as u64);
    push_str(&mut r, path);
    r
}

/// The API path of an app, followed by `suffix` (such as `/status`).
pub fn app_path(id: &str, suffix: &str) -> (r: String)
    ensures
        r@ == "/api/apps/"@ + id@ + suffix@,
{
    concat3("/api/apps/", id, suffix)
}

/// Whether a body holds only White_Space (an empty success body).
pub open spec fn blank(s: Seq<char>) -> bool {
    trim_seq(s).len() == 0
}

/// The message of an error body: its `message` string when the body is a
/// JSON object with one, else the body's text.
pub open spec fn error_message(body: Seq<char>, parsed: Option<Json>) -> Seq<char> {
    match parsed {
        Some(v) => match as_str(json_get(v, "message"@)) {
            Some(m) => m,
            None => body,
        },
        None => body,
    }
}

/// A response of the management API read as the client reads it: on
/// success a blank body is `null` and any other body must be JSON
/// (`parsed`, the body parsed as JSON, `None` when it is not), else
/// "响应解析失败: <body>"; a failure is "HTTP <status>: <message>" (see
/// [`error_message`]).
pub fn interpret_response(success: bool, status: &str, body: &str, parsed: Option<Json>) -> (r:
    Result<Json, String>)
    ensures
        success && blank(body@) ==> r matches Ok(Json::Null),
        success && !blank(body@) && parsed is Some ==> r == Ok::<Json, String>(parsed->0),
        success && !blank(body@) && parsed is None ==> (r matches Err(e) && e@ == "响应解析失败: "@
            + body@),
        !success ==> (r matches Err(e) && e@ == "HTTP "@ + status@ + ": "@ + error_message(
            body@,
            parsed,
        )),
{
    if success {
        if trim(body).as_str().is_empty() {
            Ok(Json::Null)
        } else {
            match parsed {
                Some(v) => Ok(v),
                None => Err(concat2("响应解析失败: ", body)),
            }
        }
    } else {
        let msg = match &parsed {
            Some(v) => match str_of(get(v, "message")) {
                Some(m) => owned(m.as_str()),
                None => owned(body),
            },
            None => owned(body),
        };
        let mut e = concat3("HTTP ", status, ": ");
        push_str(&mut e, msg.as_str());
        Err(e)
    }
}

/// The `status` string of a response, or "?" when it has none.
pub fn status_field(resp: &Json) -> (r: String)
    ensures
        r@ == (match as_str(json_get(*resp, "status"@)) {
            Some(s) => s,
            None => "?"@,
        }),
{
    match str_of(get(resp, "status")) {
        Some(s) => owned(s.as_str()),
        None => owned("?"),
    }
}

/// What `app launch` reports: started when the app is running, else the
/// state it is in.
pub fn launch_report(id: &str, status: &str) -> (r: String)
    ensures
        status@ == "running"@ ==> r@ == "✅ 应用 "@ + id@ + " 已启动"@,
        status@ != "running"@ ==> r@ == "ℹ️ 应用 "@ + id@ + ": "@ + status@,
{
    if str_eq(status, "running") {
        concat3("✅ 应用 ", id, " 已启动")
    } else {
        let mut r = concat3("ℹ️ 应用 ", id, ": ");
        push_str(&mut r, status);
        r
    }
}

/// `items` joined by `sep`.
pub open spec fn joined(items: Seq<Seq<char>>, sep: Seq<char>) -> Seq<char>
    decreases items.len(),
{
    if items.len() == 0 {
        Seq::empty()
    } else if items.len() == 1 {
        items[0]
    } else {
        joined(items.drop_last(), sep) + sep + items.last()
    }
}

/// A list of names as the status report prints it: the string items of an
/// array joined by ", ", or "（无）" when that is empty or the value is no
/// array.
pub open spec fn str_list_text(v: Option<Json>) -> Seq<char> {
    match v {
        Some(Json::Array(items)) => if joined(str_items(items@), ", "@).len() > 0 {
            joined(str_items(items@), ", "@)
        } else {
            "（无）"@
        },
        _ => "（无）"@,
    }
}

/// The text of a list of names (see [`str_list_text`]).
pub fn json_str_list(v: Option<&Json>) -> (r: String)
    ensures
        r@ == str_list_text(crate::json::opt_ref(v)),
{
    match v {
        Some(Json::Array(items)) => {
            let mut out = String::new();
            let mut n: usize = 0;
            let mut i: usize = 0;
            while i < items.len()
                invariant
                    i <= items@.len(),
                    n <= i,
                    n == str_items(items@.take(i as int)).len(),
                    out@ == joined(str_items(items@.take(i as int)), ", "@),
                decreases items.len() - i,
            {
                proof {
                    assert(items@.take(i + 1).drop_last() =~= items@.take(i as int));
                }
                match &items[i] {
                    Json::Str(s) => {
                        if n > 0 {
                            push_str(&mut out, ", ");
                        }
                        push_str(&mut out, s.as_str());
                        proof {
                            let it = str_items(items@.take(i + 1));
                            assert(it == str_items(items@.take(i as int)).push(s@));
                            assert(it.drop_last() =~= str_items(items@.take(i as int)));
                            if n == 0 {
                                assert(out@ =~= it[0]);
                            }
                        }
                        n = n + 1;
                    },
                    _ => {},
                }
                i += 1;
            }
            proof {
                assert(items@.take(items@.len() as int) =~= items@);
            }
            if out.as_str().is_empty() {
                owned("（无）")
            } else {
                out
            }
        },
        _ => owned("（无）"),
    }
}

} // verus!
