//! Lifecycle hooks: how a hook command is run (shell, batch file), how its
//! outcome is reported, when a wait times out, and placeholder substitution.
//! Spawning processes and files is done by the caller.
use vstd::prelude::*;
use vstd::utf8::{decode_utf8, encode_utf8_decode_utf8, encode_utf8_valid_utf8, is_char_boundary, is_char_boundary_start_end_of_seq};
use vstd::string::StringSliceAdditionalSpecFns;
use crate::json::views;
use crate::text::{chars_of, concat2, contains_seq, contains_str, decimal, has_prefix, matches_at, owned, push_char, push_decimal, push_str, starts_with, str_eq, trim_start_seq, is_space};
use crate::types::{HookConfig, HookOptions};

verus! {

/// What running one hook command gave.
#[derive(Debug, Clone)]
pub struct HookResult {
    /// "pre_launch" | "post_exit"
    pub event: String,
    /// The command line that was run.
    pub command: String,
    /// The exit code; `None` when the command was killed on timeout or did
    /// not run.
    pub exit_code: Option<i32>,
    pub stdout: String,
    pub stderr: String,
}

/// The most output kept of a hook, in bytes.
pub const OUTPUT_LIMIT: usize = 4000;

/// The last char boundary of the UTF-8 bytes `b` at or below `max` (0 at
/// the least).
pub open spec fn boundary_at_most(b: Seq<u8>, max: int) -> int
    decreases max,
{
    if max <= 0 {
        0
    } else if is_char_boundary(b, max) {
        max
    } else {
        boundary_at_most(b, max - 1)
    }
}

/// `s` itself when it has at most `max` bytes; otherwise its longest
/// prefix of at most `max` bytes that ends on a char boundary, followed by
/// a note of how many bytes were left out (`…[{n} chars omitted]`).
pub open spec fn truncated(s: &str, max: usize) -> Seq<char> {
    let b = s.spec_bytes();
    if b.len() <= max {
        s@
    } else {
        let k = boundary_at_most(b, max as int);
        decode_utf8(b.take(k)) + "…["@ + decimal((b.len() - k) as nat) + " chars omitted]"@
    }
}

/// Cuts an overlong text to at most `max` bytes, at the last char boundary,
/// with a note of what was left out (see [`truncated`]).
pub fn truncate(s: &str, max: usize) -> (r: String)
    ensures
        r@ == truncated(s, max),
{
    let n = s.as_bytes().len();
    if n <= max {
        return owned(s);
    }
    let ghost b = s.spec_bytes();
    let mut k: usize = max;
    while k > 0 && !s.is_char_boundary(k)
        invariant
            k <= max,
            max < n,
            n == b.len(),
            b == s.spec_bytes(),
            boundary_at_most(b, max as int) == boundary_at_most(b, k as int),
        decreases k,
    {
        k -= 1;
    }
    proof {
        encode_utf8_valid_utf8(s@);
        is_char_boundary_start_end_of_seq(b);
        assert(boundary_at_most(b, k as int) == k);
    }
    let (head, _) = s.split_at(k);
    proof {
        encode_utf8_decode_utf8(head@);
        assert(head.spec_bytes() =~= b.take(k as int));
    }
    let mut r = owned(head);
    push_str(&mut r, "…[");
    push_decimal(&mut r, (n - k) as u64);
    push_str(&mut r, " chars omitted]");
    r
}

/// `s` with every occurrence of `p` replaced by `rep`, left to right,
/// occurrences not overlapping (std's `str::replace` for a non-empty `p`).
pub open spec fn replace_all(s: Seq<char>, p: Seq<char>, rep: Seq<char>) -> Seq<char>
    decreases s.len(),
{
    if p.len() == 0 || s.len() < p.len() {
        s
    } else if s.take(p.len() as int) == p {
        rep + replace_all(s.skip(p.len() as int), p, rep)
    } else {
        seq![s[0]] + replace_all(s.drop_first(), p, rep)
    }
}

fn replace(s: &str, p: &str, rep: &str) -> (r: String)
    requires
        p@.len() > 0,
    ensures
        r@ == replace_all(s@, p@, rep@),
{
    let v = chars_of(s);
    let pv = chars_of(p);
    let mut out = String::new();
    let mut i: usize = 0;
    proof {
        assert(s@.skip(0) =~= s@);
        assert(Seq::<char>::empty() + replace_all(s@, p@, rep@) =~= replace_all(s@, p@, rep@));
    }
    while i < v.len()
        invariant
            v@ == s@,
            pv@ == p@,
            p@.len() > 0,
            i <= v@.len(),
            replace_all(s@, p@, rep@) == out@ + replace_all(s@.skip(i as int), p@, rep@),
        decreases v.len() - i,
    {
        let ghost t = s@.skip(i as int);
        if matches_at(&v, &pv, i) {
            proof {
                assert(t.take(p@.len() as int) =~= s@.subrange(i as int, i + p@.len()));
                assert(t.skip(p@.len() as int) =~= s@.skip(i + p@.len()));
                assert(out@ + (rep@ + replace_all(s@.skip(i + p@.len()), p@, rep@)) =~= (out@
                    + rep@) + replace_all(s@.skip(i + p@.len()), p@, rep@));
            }
            push_str(&mut out, rep);
            i = i + pv.len();
        } else {
            proof {
                if t.len() >= p@.len() {
                    assert(t.take(p@.len() as int) =~= s@.subrange(i as int, i + p@.len()));
                }
                assert(t[0] == s@[i as int]);
                assert(t.drop_first() =~= s@.skip(i + 1));
                assert(out@ + (seq![s@[i as int]] + replace_all(s@.skip(i + 1), p@, rep@)) =~= out@.push(
                    s@[i as int],
                ) + replace_all(s@.skip(i + 1), p@, rep@));
            }
            push_char(&mut out, v[i]);
            i += 1;
        }
    }
    proof {
        assert(s@.skip(i as int) =~= Seq::<char>::empty());
        assert(out@ + Seq::<char>::empty() =~= out@);
    }
    out
}

/// `cmd` with its placeholders filled in: `{app_id}`, then `{url}`, then
/// `{port}`.
pub open spec fn substituted(cmd: Seq<char>, app_id: Seq<char>, url: Seq<char>, port: Seq<char>) -> Seq<char> {
    replace_all(replace_all(replace_all(cmd, "{app_id}"@, app_id), "{url}"@, url), "{port}"@, port)
}

/// Fills in the placeholders of a hook command (see [`substituted`]).
pub fn substitute_vars(cmd: &str, app_id: &str, url: &str, port: &str) -> (r: String)
    ensures
        r@ == substituted(cmd@, app_id@, url@, port@),
{
    proof {
        reveal_strlit("{app_id}");
        reveal_strlit("{url}");
        reveal_strlit("{port}");
    }
    let a = replace(cmd, "{app_id}", app_id);
    let b = replace(a.as_str(), "{url}", url);
    replace(b.as_str(), "{port}", port)
}

proof fn lemma_replace_absent(s: Seq<char>, p: Seq<char>, rep: Seq<char>)
    requires
        p.len() > 0,
        !s.contains(p[0]),
    ensures
        replace_all(s, p, rep) == s,
    decreases s.len(),
{
    if s.len() >= p.len() {
        assert(s.take(p.len() as int) != p) by {
            assert(s.take(p.len() as int)[0] == s[0]);
        }
        assert(!s.drop_first().contains(p[0])) by {
            assert forall|k: int| 0 <= k < s.drop_first().len() implies s.drop_first()[k] != p[0] by {
                assert(s.drop_first()[k] == s[k + 1]);
            }
        }
        lemma_replace_absent(s.drop_first(), p, rep);
        assert(seq![s[0]] + s.drop_first() =~= s);
    }
}

/// Law: a hook command without any `{` has no placeholder and is run as it
/// was written.
pub proof fn law_plain_command_unchanged(cmd: Seq<char>, app_id: Seq<char>, url: Seq<char>, port: Seq<char>)
    requires
        !cmd.contains('{'),
    ensures
        substituted(cmd, app_id, url, port) == cmd,
{
    reveal_strlit("{app_id}");
    reveal_strlit("{url}");
    reveal_strlit("{port}");
    lemma_replace_absent(cmd, "{app_id}"@, app_id);
    lemma_replace_absent(cmd, "{url}"@, url);
    lemma_replace_absent(cmd, "{port}"@, port);
}

/// The program and arguments that run a command in a shell:
/// `powershell -NoProfile -Command <cmd>`, `wsl <cmd>`, `sh -c <cmd>`, and
/// `cmd /C <cmd>` for any other shell.
pub open spec fn shell_invocation(shell: Seq<char>, command: Seq<char>) -> (Seq<char>, Seq<Seq<char>>) {
    if shell == "powershell"@ {
        ("powershell"@, seq!["-NoProfile"@, "-Command"@, command])
    } else if shell == "wsl"@ {
        ("wsl"@, seq![command])
    } else if shell == "sh"@ {
        ("sh"@, seq!["-c"@, command])
    } else {
        ("cmd"@, seq!["/C"@, command])
    }
}

/// The program and arguments that run a command in a shell (see
/// [`shell_invocation`]).
pub fn shell_command(shell: &str, command: &str) -> (r: (&'static str, Vec<String>))
    ensures
        (r.0@, views(r.1@)) == shell_invocation(shell@, command@),
{
    let mut args: Vec<String> = Vec::new();
    if str_eq(shell, "powershell") {
        args.push(owned("-NoProfile"));
        args.push(owned("-Command"));
        args.push(owned(command));
        proof {
            assert(views(args@) =~= seq!["-NoProfile"@, "-Command"@, command@]);
        }
        ("powershell", args)
    } else if str_eq(shell, "wsl") {
        args.push(owned(command));
        proof {
            assert(views(args@) =~= seq![command@]);
        }
        ("wsl", args)
    } else if str_eq(shell, "sh") {
        args.push(owned("-c"));
        args.push(owned(command));
        proof {
            assert(views(args@) =~= seq!["-c"@, command@]);
        }
        ("sh", args)
    } else {
        args.push(owned("/C"));
        args.push(owned(command));
        proof {
            assert(views(args@) =~= seq!["/C"@, command@]);
        }
        ("cmd", args)
    }
}

/// A hook command that is batch code: it spans several lines or starts
/// (after leading White_Space) with `@echo off`.
pub open spec fn is_bat_code_text(command: Seq<char>) -> bool {
    command.contains('\n') || contains_seq(command, "\r\n"@) || has_prefix(
        trim_start_seq(command),
        "@echo off"@,
    )
}

/// Whether a hook command is batch code (see [`is_bat_code_text`]).
pub fn is_bat_code(command: &str) -> (r: bool)
    ensures
        r == is_bat_code_text(command@),
{
    let v = chars_of(command);
    let mut has_nl = false;
    let mut i: usize = 0;
    while i < v.len()
        invariant
            v@ == command@,
            i <= v@.len(),
            has_nl == exists|k: int| 0 <= k < i && v@[k] == '\n',
        decreases v.len() - i,
    {
        if v[i] == '\n' {
            has_nl = true;
        }
        i += 1;
    }
    let crlf = contains_str(command, "\r\n");
    let mut lo: usize = 0;
    proof {
        assert(command@.skip(0) =~= command@);
    }
    while lo < v.len() && is_space(v[lo])
        invariant
            v@ == command@,
            lo <= v@.len(),
            trim_start_seq(command@) == trim_start_seq(command@.skip(lo as int)),
        decreases v.len() - lo,
    {
        proof {
            assert(command@.skip(lo as int).drop_first() =~= command@.skip(lo + 1));
            assert(command@.skip(lo as int)[0] == v@[lo as int]);
        }
        lo += 1;
    }
    proof {
        assert(command@.skip(0) =~= command@) by {
        }
        if lo < v.len() {
            assert(command@.skip(lo as int)[0] == v@[lo as int]);
        }
        assert(trim_start_seq(command@.skip(lo as int)) == command@.skip(lo as int));
    }
    let rest = crate::text::string_of_range(&v, lo, v.len());
    proof {
        assert(rest@ =~= command@.skip(lo as int));
    }
    has_nl || crlf || starts_with(rest.as_str(), "@echo off")
}

/// Whether a hook command is written to a `.bat` file and run from there:
/// batch code run by `cmd`.
pub fn runs_as_bat_file(command: &str, options: &HookOptions) -> (r: bool)
    ensures
        r == (is_bat_code_text(command@) && options.shell@ == "cmd"@),
{
    is_bat_code(command) && str_eq(options.shell.as_str(), "cmd")
}

/// The name of the `.bat` file of a hook: `{event}_{pid}.bat`.
pub fn bat_file_name(event: &str, pid: u32) -> (r: String)
    ensures
        r@ == event@ + "_"@ + decimal(pid as nat) + ".bat"@,
{
    let mut r = concat2(event, "_");
    push_decimal(&mut r, pid as u64);
    push_str(&mut r, ".bat");
    r
}

/// The stderr text of a hook killed on timeout.
pub open spec fn timeout_text() -> Seq<char> {
    "TIMEOUT: command killed"@
}

/// The outcome of a hook process that was waited for: killed on timeout
/// (no exit code, stderr says so) or finished with its exit code; the
/// output is cut to 4000 bytes each.
pub fn completed_hook(
    event: &str,
    command: &str,
    timed_out: bool,
    exit_code: Option<i32>,
    stdout: &str,
    stderr: &str,
) -> (r: HookResult)
    ensures
        r.event@ == event@,
        r.command@ == command@,
        r.exit_code == (if timed_out {
            None
        } else {
            exit_code
        }),
        r.stdout@ == truncated(stdout, OUTPUT_LIMIT),
        r.stderr@ == (if timed_out {
            timeout_text()
        } else {
            truncated(stderr, OUTPUT_LIMIT)
        }),
{
    HookResult {
        event: owned(event),
        command: owned(command),
        exit_code: if timed_out {
            None
        } else {
            exit_code
        },
        stdout: truncate(stdout, OUTPUT_LIMIT),
        stderr: if timed_out {
            owned("TIMEOUT: command killed")
        } else {
            truncate(stderr, OUTPUT_LIMIT)
        },
    }
}

/// The outcome of a hook that could not be run or waited for: no exit code,
/// no output, the error's message as stderr.
pub fn failed_hook(event: &str, command: &str, error: &str) -> (r: HookResult)
    ensures
        r.event@ == event@,
        r.command@ == command@,
        r.exit_code is None,
        r.stdout@.len() == 0,
        r.stderr@ == error@,
{
    HookResult {
        event: owned(event),
        command: owned(command),
        exit_code: None,
        stdout: String::new(),
        stderr: owned(error),
    }
}

/// The next step while waiting for a hook process.
#[derive(Debug, Clone, Copy, PartialEq, Eq)]
pub enum WaitStep {
    /// No timeout (0): wait for the process without polling.
    WaitForever,
    /// The process has exited.
    Finished,
    /// The deadline has passed: kill the process tree.
    TimedOut,
    /// Sleep 50 ms and poll again.
    PollAgain,
}

/// The polling interval while waiting for a hook, in milliseconds.
pub const POLL_INTERVAL_MS: u64 = 50;

/// The waiting rule for a hook with a timeout: a zero timeout never times
/// out; an exited process is finished; a process still running when the
/// time since its start has reached the timeout is timed out.
pub fn wait_step(timeout_ms: u64, exited: bool, elapsed_ms: u128) -> (r: WaitStep)
    ensures
        timeout_ms == 0 ==> r == WaitStep::WaitForever,
        timeout_ms != 0 && exited ==> r == WaitStep::Finished,
        timeout_ms != 0 && !exited && elapsed_ms >= timeout_ms ==> r == WaitStep::TimedOut,
        timeout_ms != 0 && !exited && elapsed_ms < timeout_ms ==> r == WaitStep::PollAgain,
{
    if timeout_ms == 0 {
        WaitStep::WaitForever
    } else if exited {
        WaitStep::Finished
    } else if elapsed_ms >= timeout_ms as u128 {
        WaitStep::TimedOut
    } else {
        WaitStep::PollAgain
    }
}

/// `out` is the result of running this event's command with `run_hook`:
/// it carries the event and the command as given, and its exit code and
/// output are those of a result that `run_hook` can give for them.
pub open spec fn ran<F: Fn(&str, &str, &HookOptions) -> HookResult>(
    run_hook: F,
    event: Seq<char>,
    command: Seq<char>,
    options: &HookOptions,
    out: HookResult,
) -> bool {
    &&& out.event@ == event
    &&& out.command@ == command
    &&& exists|ev: &str, c: &str, got: HookResult|
        ev@ == event && c@ == command && #[trigger] call_ensures(run_hook, (ev, c, options), got)
            && out.exit_code == got.exit_code && out.stdout@ == got.stdout@ && out.stderr@
            == got.stderr@
}

fn run_all<F: Fn(&str, &str, &HookOptions) -> HookResult>(
    event: &str,
    commands: &Vec<String>,
    options: &HookOptions,
    run_hook: &F,
) -> (r: Vec<HookResult>)
    requires
        forall|ev: &str, c: &str, o: &HookOptions| call_requires(*run_hook, (ev, c, o)),
    ensures
        r@.len() == commands@.len(),
        forall|i: int| 0 <= i < r@.len() ==> ran(*run_hook, event@, commands@[i]@, options, #[trigger] r@[i]),
{
    let mut out: Vec<HookResult> = Vec::new();
    let mut i: usize = 0;
    while i < commands.len()
        invariant
            i <= commands@.len(),
            out@.len() == i,
            forall|ev: &str, c: &str, o: &HookOptions| call_requires(*run_hook, (ev, c, o)),
            forall|j: int| 0 <= j < i ==> ran(*run_hook, event@, commands@[j]@, options, #[trigger] out@[j]),
        decreases commands.len() - i,
    {
        let got = run_hook(event, commands[i].as_str(), options);
        let res = HookResult {
            event: owned(event),
            command: owned(commands[i].as_str()),
            exit_code: got.exit_code,
            stdout: got.stdout,
            stderr: got.stderr,
        };
        proof {
            assert(ran(*run_hook, event@, commands@[i as int]@, options, res));
        }
        out.push(res);
        i += 1;
    }
    out
}

/// Runs the pre-launch hooks in order with `run_hook`, one result each.
pub fn run_pre_launch<F: Fn(&str, &str, &HookOptions) -> HookResult>(
    hooks: &HookConfig,
    options: &HookOptions,
    run_hook: F,
) -> (r: Vec<HookResult>)
    requires
        forall|ev: &str, c: &str, o: &HookOptions| call_requires(run_hook, (ev, c, o)),
    ensures
        r@.len() == hooks.pre_launch@.len(),
        forall|i: int|
            0 <= i < r@.len() ==> ran(run_hook, "pre_launch"@, hooks.pre_launch@[i]@, options, #[trigger] r@[i]),
{
    run_all("pre_launch", &hooks.pre_launch, options, &run_hook)
}

/// Runs the post-exit hooks in order with `run_hook`, one result each.
pub fn run_post_exit<F: Fn(&str, &str, &HookOptions) -> HookResult>(
    hooks: &HookConfig,
    options: &HookOptions,
    run_hook: F,
) -> (r: Vec<HookResult>)
    requires
        forall|ev: &str, c: &str, o: &HookOptions| call_requires(run_hook, (ev, c, o)),
    ensures
        r@.len() == hooks.post_exit@.len(),
        forall|i: int|
            0 <= i < r@.len() ==> ran(run_hook, "post_exit"@, hooks.post_exit@[i]@, options, #[trigger] r@[i]),
{
    run_all("post_exit", &hooks.post_exit, options, &run_hook)
}

} // verus!
