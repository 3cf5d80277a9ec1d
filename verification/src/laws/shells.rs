//! Shell commands: what is run, and what is reported of it.
use crate::json::{JsonView, bool_of, field_of, text_of, unsigned_of};
use crate::laws::{holds, lemma_stands_between, stands_at};
use crate::paths::{PathErrorView, path_arg_or, resolved};
use crate::registry::AssistantConfig;
use crate::shell::{
    ExitStatus, ShellEnd, ShellErrorView, end_note, exit_code, is_fish, merged_output,
    overflow_note, plain_lines, plain_output, poll_request, poll_text, shell_report_text,
    shell_request, wrapped_command,
};
use crate::text::{
    decimal, decimal_int, is_space, joined, lines_of, opt_view, trimmed, trimmed_end, trimmed_start,
};
use crate::tools::{CallView, FileTool, ToolErrorView, call_of};
use crate::web::http_url;
use vstd::prelude::*;
use vstd::string::*;

verus! {

// ---------------------------------------------------------------------------
// What is run
// ---------------------------------------------------------------------------

/// The command runs first, as it was given; the directory it ends in is written
/// to the file, and the shell exits with the status that the command left, read
/// the way the shell reads it.
pub proof fn commands_run_as_given(command: Seq<char>, file: Seq<char>, shell: Seq<char>)
    ensures
        (command + "; "@).is_prefix_of(wrapped_command(command, file, shell)),
        holds(wrapped_command(command, file, shell), " > "@ + file + ";"@),
        "; exit $__kaku_rc"@.is_suffix_of(wrapped_command(command, file, shell)),
        holds(
            wrapped_command(command, file, shell),
            if is_fish(shell) {
                "set __kaku_rc $status;"@
            } else {
                "__kaku_rc=$?;"@
            },
        ),
        holds(wrapped_command(command, file, shell), "pwd)"@),
{
    reveal_strlit("; set __kaku_rc $status; printf '%s' (pwd) > ");
    reveal_strlit("; __kaku_rc=$?; printf '%s' \"$(pwd)\" > ");
    reveal_strlit("; exit $__kaku_rc");
    reveal_strlit("; ");
    reveal_strlit(" > ");
    reveal_strlit(";");
    reveal_strlit("set __kaku_rc $status;");
    reveal_strlit("__kaku_rc=$?;");
    reveal_strlit("pwd)");
    reveal_strlit(" printf '%s' (pwd)");
    reveal_strlit(" printf '%s' \"$(pwd)\"");
    reveal_strlit(" exit $__kaku_rc");
    let whole = wrapped_command(command, file, shell);
    let mid = if is_fish(shell) {
        "; set __kaku_rc $status; printf '%s' (pwd) > "@
    } else {
        "; __kaku_rc=$?; printf '%s' \"$(pwd)\" > "@
    };
    let end = "; exit $__kaku_rc"@;
    assert(whole =~= command + mid + file + end);
    assert(whole.subrange(0, (command + "; "@).len() as int) =~= command + "; "@);
    assert(whole.subrange(whole.len() - end.len(), whole.len() as int) =~= end);
    let front = command + mid.subrange(0, mid.len() - 3);
    let part = " > "@ + file + ";"@;
    assert(mid.subrange(mid.len() - 3, mid.len() as int) =~= " > "@);
    assert(whole =~= front + part + end.subrange(1, end.len() as int));
    lemma_stands_between(front, part, end.subrange(1, end.len() as int));
    let status = if is_fish(shell) {
        "set __kaku_rc $status;"@
    } else {
        "__kaku_rc=$?;"@
    };
    let k = (command.len() + 2) as int;
    assert(mid.subrange(2, (2 + status.len()) as int) =~= status);
    assert(whole.subrange(k, k + status.len()) =~= status);
    assert(stands_at(whole, status, k));
    let p: int = if is_fish(shell) {
        mid.len() - 7
    } else {
        mid.len() - 8
    };
    assert(mid.subrange(p, p + 4) =~= "pwd)"@);
    assert(whole.subrange(command.len() + p, command.len() + p + 4) =~= "pwd)"@);
    assert(stands_at(whole, "pwd)"@, command.len() + p));
}

/// A call runs the command that it names, in the directory that it names, or
/// else in the current one; without a command it is refused.
pub proof fn calls_name_command_and_directory(
    args: JsonView,
    cwd: Seq<char>,
    home: Option<Seq<char>>,
)
    ensures
        match shell_request(args, cwd, home) {
            Ok((command, dir)) => {
                &&& text_of(field_of(args, "command"@)) == Some(command)
                &&& text_of(field_of(args, "cwd"@)) is None ==> dir == cwd
                &&& text_of(field_of(args, "cwd"@)) matches Some(p) ==> resolved(p, cwd, home)
                    == Ok::<Seq<char>, PathErrorView>(dir)
            },
            Err(ShellErrorView::MissingCommand) => text_of(field_of(args, "command"@)) is None,
            Err(ShellErrorView::Path(e)) => text_of(field_of(args, "cwd"@)) matches Some(p)
                && resolved(p, cwd, home) == Err::<Seq<char>, PathErrorView>(e),
            Err(_) => false,
        },
        text_of(field_of(args, "command"@)) is Some && text_of(field_of(args, "cwd"@)) is None
            ==> shell_request(args, cwd, home) is Ok,
{
}

// ---------------------------------------------------------------------------
// What is reported
// ---------------------------------------------------------------------------

pub(crate) proof fn lemma_not_blank(s: Seq<char>, i: int)
    requires
        0 <= i < s.len(),
        !is_space(s[i]),
    ensures
        trimmed(s).len() > 0,
{
    lemma_start_kept(s, i);
    let t = trimmed_start(s);
    let j = choose|j: int| 0 <= j < t.len() && !is_space(#[trigger] t[j]);
    lemma_end_kept(t, j);
}

proof fn lemma_start_kept(s: Seq<char>, i: int)
    requires
        0 <= i < s.len(),
        !is_space(s[i]),
    ensures
        exists|j: int| 0 <= j < trimmed_start(s).len() && !is_space(#[trigger] trimmed_start(s)[j]),
    decreases s.len(),
{
    if is_space(s[0]) {
        assert(s.drop_first()[i - 1] == s[i]);
        lemma_start_kept(s.drop_first(), i - 1);
        let t = trimmed_start(s.drop_first());
        assert(trimmed_start(s) == t);
        let j = choose|j: int| 0 <= j < t.len() && !is_space(#[trigger] t[j]);
        assert(!is_space(trimmed_start(s)[j]));
    } else {
        assert(!is_space(trimmed_start(s)[i]));
    }
}

proof fn lemma_end_kept(s: Seq<char>, i: int)
    requires
        0 <= i < s.len(),
        !is_space(s[i]),
    ensures
        trimmed_end(s).len() > 0,
    decreases s.len(),
{
    if is_space(s.last()) {
        assert(s.drop_last()[i] == s[i]);
        lemma_end_kept(s.drop_last(), i);
    }
}

/// The standard output keeps its lines, in order, but for the markers.
pub proof fn output_keeps_its_lines(stdout: Seq<char>)
    ensures
        plain_lines(lines_of(stdout)) == lines_of(stdout).filter(
            |line: Seq<char>| !"__KAKU_CWD__:"@.is_prefix_of(line),
        ),
        joined(plain_lines(lines_of(stdout)), "\n"@).is_prefix_of(plain_output(stdout)),
        stdout.len() > 0 && stdout.last() == '\n' ==> plain_output(stdout).len() > 0
            && plain_output(stdout).last() == '\n',
{
    lemma_plain(lines_of(stdout));
    let body = joined(plain_lines(lines_of(stdout)), "\n"@);
    assert(plain_output(stdout).subrange(0, body.len() as int) =~= body);
}

proof fn lemma_plain(all: Seq<Seq<char>>)
    ensures
        plain_lines(all) == all.filter(|line: Seq<char>| !"__KAKU_CWD__:"@.is_prefix_of(line)),
    decreases all.len(),
{
    reveal(Seq::filter);
    if all.len() > 0 {
        lemma_plain(all.drop_last());
    }
}

proof fn lemma_report(
    stdout: Seq<char>,
    stderr: Seq<char>,
    overflow: Option<nat>,
    cap: nat,
    end: ShellEnd,
    status: Option<ExitStatus>,
)
    ensures
        ({
            let out = merged_output(stdout, stderr) + (match overflow {
                Some(total) => overflow_note(cap, total),
                None => seq![],
            }) + end_note(end, status);
            let report = shell_report_text(stdout, stderr, overflow, cap, end, status);
            &&& trimmed(out).len() > 0 ==> report == out
            &&& trimmed(out).len() == 0 ==> report == "(no output)"@
        }),
{
}

/// A report begins with the standard output, without markers, whatever follows.
/// Only where nothing at all was put out does it say so instead.
pub proof fn reports_begin_with_the_output(
    stdout: Seq<char>,
    stderr: Seq<char>,
    overflow: Option<nat>,
    cap: nat,
    end: ShellEnd,
    status: Option<ExitStatus>,
)
    ensures
        ({
            let report = shell_report_text(stdout, stderr, overflow, cap, end, status);
            plain_output(stdout).is_prefix_of(report) || (report == "(no output)"@ && trimmed(
                plain_output(stdout),
            ).len() == 0 && stderr.len() == 0)
        }),
{
    lemma_report(stdout, stderr, overflow, cap, end, status);
    let report = shell_report_text(stdout, stderr, overflow, cap, end, status);
    let own = plain_output(stdout);
    let merged = merged_output(stdout, stderr);
    assert(merged.subrange(0, own.len() as int) =~= own);
    let out = merged + (match overflow {
        Some(total) => overflow_note(cap, total),
        None => seq![],
    }) + end_note(end, status);
    assert(out.subrange(0, own.len() as int) =~= own);
    if trimmed(out).len() == 0 {
        if stderr.len() > 0 {
            lemma_stderr_in(
                merged,
                stderr,
                match overflow {
                    Some(total) => overflow_note(cap, total),
                    None => seq![],
                },
                end_note(end, status),
                stdout,
            );
        }
        if trimmed(own).len() > 0 {
            lemma_some_mark(own);
            let i = choose|i: int| 0 <= i < own.len() && !is_space(#[trigger] own[i]);
            assert(out[i] == own[i]);
            lemma_not_blank(out, i);
        }
    }
}

/// A text that is not blank has a character that is no white space.
pub(crate) proof fn lemma_some_mark(s: Seq<char>)
    requires
        trimmed(s).len() > 0,
    ensures
        exists|i: int| 0 <= i < s.len() && !is_space(#[trigger] s[i]),
{
    if forall|i: int| 0 <= i < s.len() ==> is_space(#[trigger] s[i]) {
        lemma_all_space(s);
        assert(trimmed_end(seq![]) =~= seq![]);
    }
}

proof fn lemma_all_space(s: Seq<char>)
    requires
        forall|i: int| 0 <= i < s.len() ==> is_space(#[trigger] s[i]),
    ensures
        trimmed_start(s).len() == 0,
    decreases s.len(),
{
    if s.len() > 0 {
        let rest = s.drop_first();
        assert forall|i: int| 0 <= i < rest.len() implies is_space(#[trigger] rest[i]) by {
            assert(rest[i] == s[i + 1]);
        }
        lemma_all_space(rest);
    }
}

proof fn lemma_stderr_stands(stdout: Seq<char>, stderr: Seq<char>)
    requires
        stderr.len() > 0,
    ensures
        holds(merged_output(stdout, stderr), "[stderr] "@ + stderr),
        ("[stderr] "@ + stderr).is_suffix_of(merged_output(stdout, stderr)),
{
    let merged = merged_output(stdout, stderr);
    let part = "[stderr] "@ + stderr;
    let front = merged.subrange(0, merged.len() - part.len());
    assert(merged =~= front + part + Seq::<char>::empty());
    lemma_stands_between(front, part, seq![]);
    assert(merged.subrange(merged.len() - part.len(), merged.len() as int) =~= part);
}

/// The error output is reported whole behind its mark, whatever the standard
/// output was; where there is none, no mark is made up for it.
pub proof fn error_output_is_reported_whole(
    stdout: Seq<char>,
    stderr: Seq<char>,
    overflow: Option<nat>,
    cap: nat,
    end: ShellEnd,
    status: Option<ExitStatus>,
)
    ensures
        stderr.len() > 0 ==> holds(
            shell_report_text(stdout, stderr, overflow, cap, end, status),
            "[stderr] "@ + stderr,
        ),
        stderr.len() == 0 ==> merged_output(stdout, stderr) == plain_output(stdout),
{
    if stderr.len() > 0 {
        lemma_report(stdout, stderr, overflow, cap, end, status);
        let merged = merged_output(stdout, stderr);
        let note = (match overflow {
            Some(total) => overflow_note(cap, total),
            None => seq![],
        });
        lemma_stderr_in(merged, stderr, note, end_note(end, status), stdout);
    }
}

proof fn lemma_stderr_in(
    merged: Seq<char>,
    stderr: Seq<char>,
    note: Seq<char>,
    last: Seq<char>,
    stdout: Seq<char>,
)
    requires
        stderr.len() > 0,
        merged == merged_output(stdout, stderr),
    ensures
        holds(merged + note + last, "[stderr] "@ + stderr),
        trimmed(merged + note + last).len() > 0,
{
    let part = "[stderr] "@ + stderr;
    lemma_stderr_stands(stdout, stderr);
    let front = merged.subrange(0, merged.len() - part.len());
    assert(merged =~= front + part);
    let out = merged + note + last;
    assert(out =~= front + part + (note + last));
    lemma_stands_between(front, part, note + last);
    reveal_strlit("[stderr] ");
    assert(part[0] == '[');
    assert(out[front.len() as int] == part[0]);
    lemma_not_blank(out, front.len() as int);
}

/// What a report says of the end of a command: the exit code where it failed by
/// itself, and nothing where it succeeded; that it was canceled, or that it ran
/// out of time, where it was stopped.
pub open spec fn end_is_told(report: Seq<char>, end: ShellEnd, status: Option<ExitStatus>) -> bool {
    match end {
        ShellEnd::Canceled => "\n[canceled by user before completion]"@.is_suffix_of(report),
        ShellEnd::TimedOut => holds(report, "\n[killed: exceeded 60s timeout."@),
        ShellEnd::Exited => match status {
            Some(s) => !s.success ==> ("\n[exit "@ + decimal_int(
                match s.code {
                    Some(c) => c as int,
                    None => -1,
                },
            ) + "]"@).is_suffix_of(report),
            None => true,
        },
    }
}

/// How a command ended is told at the end of its report.
pub proof fn reports_tell_the_end(
    stdout: Seq<char>,
    stderr: Seq<char>,
    overflow: Option<nat>,
    cap: nat,
    end: ShellEnd,
    status: Option<ExitStatus>,
)
    ensures
        end_is_told(shell_report_text(stdout, stderr, overflow, cap, end, status), end, status),
{
    lemma_report(stdout, stderr, overflow, cap, end, status);
    let note = end_note(end, status);
    let front = merged_output(stdout, stderr) + (match overflow {
        Some(total) => overflow_note(cap, total),
        None => seq![],
    });
    let out = front + note;
    reveal_strlit("\n[canceled by user before completion]");
    reveal_strlit("\n[killed: exceeded ");
    reveal_strlit("\n[exit ");
    if note.len() > 0 {
        assert(note[1] == '[');
        assert(out[(front.len() + 1) as int] == '[');
        lemma_not_blank(out, (front.len() + 1) as int);
        assert(out.subrange(out.len() - note.len(), out.len() as int) =~= note);
    }
    if end == ShellEnd::TimedOut {
        reveal_strlit("\n[killed: exceeded 60s timeout.");
        reveal_strlit(
            "s timeout. For long-running commands use shell_bg + shell_poll; for searching code use grep_search.]",
        );
        reveal_with_fuel(decimal, 3);
        let long =
            "s timeout. For long-running commands use shell_bg + shell_poll; for searching code use grep_search.]"@;
        let told = "\n[killed: exceeded 60s timeout."@;
        assert(decimal(60) =~= seq!['6', '0']);
        assert(note =~= told + long.subrange(10, long.len() as int));
        assert(out =~= front + told + long.subrange(10, long.len() as int));
        lemma_stands_between(front, told, long.subrange(10, long.len() as int));
    }
}

/// A command that succeeded and was not cut short is reported by its output
/// alone.
pub proof fn successes_are_reported_by_their_output(stdout: Seq<char>, cap: nat, code: Option<i32>)
    ensures
        shell_report_text(
            stdout,
            seq![],
            None,
            cap,
            ShellEnd::Exited,
            Some(ExitStatus { success: true, code }),
        ) == if trimmed(plain_output(stdout)).len() > 0 {
            plain_output(stdout)
        } else {
            "(no output)"@
        },
{
    let out = plain_output(stdout);
    assert(merged_output(stdout, seq![]) =~= out);
    assert(out + Seq::<char>::empty() + Seq::<char>::empty() =~= out);
}

/// Output that went past the cap is reported as such, with the cap and with how
/// much there was in all.
pub proof fn overflow_is_told(
    stdout: Seq<char>,
    stderr: Seq<char>,
    total: nat,
    cap: nat,
    end: ShellEnd,
    status: Option<ExitStatus>,
)
    ensures
        holds(
            shell_report_text(stdout, stderr, Some(total), cap, end, status),
            "\n[truncated: first ~"@ + decimal(cap) + " bytes shown ("@ + decimal(total)
                + " total)."@,
        ),
{
    lemma_report(stdout, stderr, Some(total), cap, end, status);
    let merged = merged_output(stdout, stderr);
    let told = "\n[truncated: first ~"@ + decimal(cap) + " bytes shown ("@ + decimal(total)
        + " total)."@;
    reveal_strlit(" total).");
    reveal_strlit(
        " total). For large output, use shell_bg + shell_poll to avoid waiting.]",
    );
    reveal_strlit("\n[truncated: first ~");
    let long = " total). For large output, use shell_bg + shell_poll to avoid waiting.]"@;
    let out = merged + overflow_note(cap, total) + end_note(end, status);
    let rest = long.subrange(8, long.len() as int) + end_note(end, status);
    assert(out =~= merged + told + rest);
    lemma_stands_between(merged, told, rest);
    assert(out[(merged.len() + 1) as int] == '[');
    lemma_not_blank(out, (merged.len() + 1) as int);
}

// ---------------------------------------------------------------------------
// Background processes
// ---------------------------------------------------------------------------

/// A poll names its process, says whether it runs or with which code it ended,
/// and ends with all of its output.
pub proof fn polls_tell_state_and_output(
    pid: u32,
    status: Option<ExitStatus>,
    output: Seq<char>,
)
    ensures
        ("pid "@ + decimal(pid as nat) + ": "@).is_prefix_of(poll_text(pid, status, output)),
        output.is_suffix_of(poll_text(pid, status, output)),
        status is None ==> holds(poll_text(pid, status, output), ": running "@),
        status matches Some(s) ==> holds(
            poll_text(pid, status, output),
            ": done [exit "@ + decimal_int(
                match s.code {
                    Some(c) => c as int,
                    None => -1,
                },
            ) + "]"@,
        ),
{
    let text = poll_text(pid, status, output);
    let front = "pid "@ + decimal(pid as nat);
    let tail = if output.len() == 0 {
        seq![]
    } else {
        "\n"@ + output
    };
    reveal_strlit(": ");
    reveal_strlit("running");
    reveal_strlit(" ");
    reveal_strlit("done");
    reveal_strlit(": running ");
    reveal_strlit(": done [exit ");
    reveal_strlit("[exit ");
    let mid = match status {
        Some(s) => ": done [exit "@ + decimal_int(exit_code(s)) + "]"@,
        None => ": running "@,
    };
    assert(text =~= front + mid + tail);
    lemma_stands_between(front, mid, tail);
    assert(text.subrange(0, (front + ": "@).len() as int) =~= front + ": "@);
    assert(text.subrange(text.len() - output.len(), text.len() as int) =~= output);
}

/// A poll asks for the process whose number it gives, and waits as long as it
/// says, or not at all.
pub proof fn polls_name_their_process(args: JsonView)
    ensures
        unsigned_of(field_of(args, "pid"@)) is None <==> poll_request(args) is Err,
        poll_request(args) matches Ok(p) ==> (unsigned_of(field_of(args, "pid"@)) matches Some(n)
            && (n <= u32::MAX ==> p.0 == n)),
        poll_request(args) matches Ok(p) ==> (match unsigned_of(field_of(args, "timeout_secs"@)) {
            Some(t) => p.1 == t,
            None => p.1 == 0,
        }),
{
}

// ---------------------------------------------------------------------------
// Tool calls
// ---------------------------------------------------------------------------

/// The number that a call gives, or the default, as far as it is allowed.
pub open spec fn up_to(value: Option<u64>, default: u64, max: u64, n: u64) -> bool {
    match value {
        Some(v) => n == (if v < max {
            v
        } else {
            max
        }),
        None => n == default,
    }
}

/// A grep search asks for the pattern, path, filter, context, case and limit
/// that the call gives; without them it looks in the current directory, with two
/// lines of context, by case, for a hundred results.
pub proof fn grep_calls_carry_their_arguments(
    args: JsonView,
    cwd: Seq<char>,
    home: Option<Seq<char>>,
    config: AssistantConfig,
)
    ensures
        match call_of("grep_search"@, args, cwd, home, config) {
            Ok(CallView::GrepSearch {
                pattern,
                path,
                glob,
                context_lines,
                case_insensitive,
                max_results,
            }) => {
                &&& text_of(field_of(args, "pattern"@)) == Some(pattern)
                &&& path == path_arg_or(args, cwd)
                &&& glob == text_of(field_of(args, "glob"@))
                &&& up_to(unsigned_of(field_of(args, "context_lines"@)), 2, 100, context_lines)
                &&& case_insensitive <==> bool_of(field_of(args, "case_insensitive"@)) == Some(true)
                &&& up_to(unsigned_of(field_of(args, "max_results"@)), 100, 1000, max_results)
            },
            Err(e) => e is MissingPattern && text_of(field_of(args, "pattern"@)) is None,
            _ => false,
        },
{
    lemma_names();
}

/// The other calls carry their arguments too: the symbol and its kind, the URL
/// and whether its page is wanted as it is, the depth of a tree, the directory.
pub proof fn calls_carry_their_arguments(
    args: JsonView,
    cwd: Seq<char>,
    home: Option<Seq<char>>,
    config: AssistantConfig,
)
    ensures
        match call_of("symbol_search"@, args, cwd, home, config) {
            Ok(CallView::SymbolSearch { query, path, kind, glob }) => {
                &&& text_of(field_of(args, "query"@)) == Some(query)
                &&& path == path_arg_or(args, cwd)
                &&& kind == (match text_of(field_of(args, "kind"@)) {
                    Some(k) => k,
                    None => "all"@,
                })
                &&& glob == text_of(field_of(args, "glob"@))
            },
            Err(e) => e is MissingQuery && text_of(field_of(args, "query"@)) is None,
            _ => false,
        },
        match call_of("web_fetch"@, args, cwd, home, config) {
            Ok(CallView::WebFetch { url, script, raw }) => {
                &&& text_of(field_of(args, "url"@)) == Some(url) && http_url(url)
                &&& script == opt_view(config.web_fetch_script)
                &&& raw <==> bool_of(field_of(args, "raw"@)) == Some(true) || text_of(
                    field_of(args, "detail"@),
                ) == Some("full"@)
            },
            Err(e) => text_of(field_of(args, "url"@)) matches Some(url) ==> !http_url(url),
            _ => false,
        },
        match call_of("file_tree"@, args, cwd, home, config) {
            Ok(CallView::FileTree { path, depth }) => path == path_arg_or(args, cwd) && up_to(
                unsigned_of(field_of(args, "depth"@)),
                3,
                6,
                depth,
            ),
            _ => false,
        },
        match call_of("http_request"@, args, cwd, home, config) {
            Ok(CallView::HttpRequest { method, url }) => text_of(field_of(args, "method"@)) == Some(
                method,
            ) && text_of(field_of(args, "url"@)) == Some(url) && http_url(url),
            Err(e) => {
                &&& e is MissingMethod <==> text_of(field_of(args, "method"@)) is None
                &&& e is MissingUrl ==> text_of(field_of(args, "url"@)) is None
                &&& e is UnsupportedUrl ==> (text_of(field_of(args, "url"@)) matches Some(u)
                    && !http_url(u))
            },
            _ => false,
        },
        match call_of("shell_exec"@, args, cwd, home, config) {
            Ok(CallView::ShellExec(command, dir)) => shell_request(args, cwd, home) == Ok::<
                (Seq<char>, Seq<char>),
                ShellErrorView,
            >((command, dir)),
            Err(ToolErrorView::Shell(e)) => shell_request(args, cwd, home) == Err::<
                (Seq<char>, Seq<char>),
                ShellErrorView,
            >(e),
            _ => false,
        },
        match call_of("shell_bg"@, args, cwd, home, config) {
            Ok(CallView::ShellBackground(command, dir)) => shell_request(args, cwd, home) == Ok::<
                (Seq<char>, Seq<char>),
                ShellErrorView,
            >((command, dir)),
            Err(ToolErrorView::Shell(e)) => shell_request(args, cwd, home) == Err::<
                (Seq<char>, Seq<char>),
                ShellErrorView,
            >(e),
            _ => false,
        },
{
    lemma_names();
    reveal_strlit("default");
    reveal_strlit("full");
    assert("default"@.len() != "full"@.len());
}

/// Each file tool does what its name says.
pub proof fn file_tools_go_by_name(
    args: JsonView,
    cwd: Seq<char>,
    home: Option<Seq<char>>,
    config: AssistantConfig,
)
    ensures
        call_of("fs_read"@, args, cwd, home, config) == Ok::<CallView, ToolErrorView>(
            CallView::File(FileTool::Read),
        ),
        call_of("fs_list"@, args, cwd, home, config) == Ok::<CallView, ToolErrorView>(
            CallView::File(FileTool::List),
        ),
        call_of("fs_write"@, args, cwd, home, config) == Ok::<CallView, ToolErrorView>(
            CallView::File(FileTool::Write),
        ),
        call_of("fs_patch"@, args, cwd, home, config) == Ok::<CallView, ToolErrorView>(
            CallView::File(FileTool::Patch),
        ),
        call_of("fs_mkdir"@, args, cwd, home, config) == Ok::<CallView, ToolErrorView>(
            CallView::File(FileTool::Mkdir),
        ),
        call_of("fs_delete"@, args, cwd, home, config) == Ok::<CallView, ToolErrorView>(
            CallView::File(FileTool::Delete),
        ),
        call_of("pwd"@, args, cwd, home, config) == Ok::<CallView, ToolErrorView>(CallView::Pwd),
{
    lemma_names();
}

proof fn lemma_names()
    ensures
        "fs_read"@[3] == 'r' && "fs_list"@[3] == 'l' && "fs_write"@[3] == 'w' && "fs_patch"@[3]
            == 'p' && "fs_mkdir"@[3] == 'm' && "fs_delete"@[3] == 'd',
        "fs_read"@[0] == 'f' && "fs_list"@[0] == 'f' && "fs_write"@[0] == 'f' && "fs_patch"@[0]
            == 'f' && "fs_mkdir"@[0] == 'f' && "fs_delete"@[0] == 'f',
        "fs_read"@[1] == 's' && "fs_list"@[1] == 's' && "fs_write"@[1] == 's' && "fs_patch"@[1]
            == 's' && "fs_mkdir"@[1] == 's' && "fs_delete"@[1] == 's',
        "shell_exec"@[0] == 's' && "shell_bg"@[0] == 's' && "shell_poll"@[0] == 's',
        "shell_exec"@[6] == 'e' && "shell_bg"@[6] == 'b' && "shell_poll"@[6] == 'p',
        "shell_exec"@[1] == 'h' && "shell_bg"@[1] == 'h' && "shell_poll"@[1] == 'h',
        "pwd"@.len() == 3 && "pwd"@[0] == 'p' && "pwd"@[1] == 'w',
        "web_fetch"@[0] == 'w' && "web_search"@[0] == 'w' && "web_fetch"@.len() == 9
            && "web_search"@.len() == 10,
        "read_url"@[0] == 'r',
        "project_summary"@[0] == 'p' && "project_summary"@.len() == 15,
        "file_tree"@[0] == 'f' && "file_tree"@[1] == 'i',
        "symbol_search"@[0] == 's' && "symbol_search"@[1] == 'y',
        "grep_search"@[0] == 'g',
        "memory_read"@[0] == 'm',
        "soul_read"@[0] == 's' && "soul_read"@[1] == 'o',
        "http_request"@[0] == 'h',
{
    reveal_strlit("fs_read");
    reveal_strlit("fs_list");
    reveal_strlit("fs_write");
    reveal_strlit("fs_patch");
    reveal_strlit("fs_mkdir");
    reveal_strlit("fs_delete");
    reveal_strlit("shell_exec");
    reveal_strlit("shell_bg");
    reveal_strlit("shell_poll");
    reveal_strlit("pwd");
    reveal_strlit("web_fetch");
    reveal_strlit("web_search");
    reveal_strlit("read_url");
    reveal_strlit("project_summary");
    reveal_strlit("file_tree");
    reveal_strlit("symbol_search");
    reveal_strlit("grep_search");
    reveal_strlit("memory_read");
    reveal_strlit("soul_read");
    reveal_strlit("http_request");
}

} // verus!
