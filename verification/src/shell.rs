//! Shell execution tools: shell_exec, shell_bg, shell_poll.
use crate::json::{JsonValue, JsonView, field_of, opt_str, text_of, unsigned_of};
use crate::paths::{PathError, PathErrorView, file_name, file_name_of, resolve, resolved};
use crate::text::{
    chars_of, concat2, concat3, concat4, concat5, decimal, decimal_int, decimal_of,
    decimal_of_signed, decode_lossy, encoded_len, fit_bytes, fitting, join, joined,
    lemma_fitting_fits, lemma_utf8_len_concat, lines, lines_of, lossy_text, same, starts_with, trim,
    trimmed, utf8_len, views,
};
use vstd::prelude::*;
use vstd::string::*;

verus! {

/// Wall-clock ceiling for a single `shell_exec` invocation.
pub const SHELL_EXEC_TIMEOUT_SECS: u64 = 60;

/// The part of the output cap that is kept for the notes at its end.
pub const OUTPUT_NOTE_BYTES: usize = 512;

// ---------------------------------------------------------------------------
// The command
// ---------------------------------------------------------------------------

pub open spec fn is_fish(shell: Seq<char>) -> bool {
    file_name_of(shell) == Some("fish"@)
}

/// The command line that runs a command, leaves the working directory it ends
/// in behind in a file, and exits with the status of the command.
pub open spec fn wrapped_command(
    command: Seq<char>,
    cwd_file: Seq<char>,
    shell: Seq<char>,
) -> Seq<char> {
    if is_fish(shell) {
        command + "; set __kaku_rc $status; printf '%s' (pwd) > "@ + cwd_file
            + "; exit $__kaku_rc"@
    } else {
        command + "; __kaku_rc=$?; printf '%s' \"$(pwd)\" > "@ + cwd_file + "; exit $__kaku_rc"@
    }
}

pub fn shell_exec_wrapper(command: &str, cwd_tmp_path: &str, shell: &str) -> (r: String)
    ensures
        r@ == wrapped_command(command@, cwd_tmp_path@, shell@),
{
    let fish = match file_name(shell) {
        Some(name) => same(name.as_str(), "fish"),
        None => false,
    };
    if fish {
        concat4(
            command,
            "; set __kaku_rc $status; printf '%s' (pwd) > ",
            cwd_tmp_path,
            "; exit $__kaku_rc",
        )
    } else {
        concat4(
            command,
            "; __kaku_rc=$?; printf '%s' \"$(pwd)\" > ",
            cwd_tmp_path,
            "; exit $__kaku_rc",
        )
    }
}

/// A command to run, and where.
#[derive(Debug)]
pub struct ShellRequest {
    pub command: String,
    pub cwd: String,
}

/// Why a shell tool does not run.
#[derive(Debug)]
pub enum ShellError {
    MissingCommand,
    MissingPid,
    UnknownPid(u32),
    Path(PathError),
}

pub enum ShellErrorView {
    MissingCommand,
    MissingPid,
    UnknownPid(u32),
    Path(PathErrorView),
}

impl View for ShellError {
    type V = ShellErrorView;

    open spec fn view(&self) -> ShellErrorView {
        match *self {
            ShellError::MissingCommand => ShellErrorView::MissingCommand,
            ShellError::MissingPid => ShellErrorView::MissingPid,
            ShellError::UnknownPid(pid) => ShellErrorView::UnknownPid(pid),
            ShellError::Path(e) => ShellErrorView::Path(e@),
        }
    }
}

pub open spec fn shell_error_text(e: ShellErrorView) -> Seq<char> {
    match e {
        ShellErrorView::MissingCommand => "missing command"@,
        ShellErrorView::MissingPid => "missing pid"@,
        ShellErrorView::UnknownPid(pid) => "no background process with pid "@ + decimal(pid as nat),
        ShellErrorView::Path(p) => crate::paths::path_error_text(p),
    }
}

impl ShellError {
    pub fn message(&self) -> (r: String)
        ensures
            r@ == shell_error_text(self@),
    {
        match self {
            ShellError::MissingCommand => "missing command".to_owned(),
            ShellError::MissingPid => "missing pid".to_owned(),
            ShellError::UnknownPid(pid) => concat2(
                "no background process with pid ",
                decimal_of(*pid as u128).as_str(),
            ),
            ShellError::Path(p) => p.message(),
        }
    }
}

/// The command and directory that a tool call asks for. The directory defaults
/// to the current one.
pub open spec fn shell_request(args: JsonView, cwd: Seq<char>, home: Option<Seq<char>>) -> Result<
    (Seq<char>, Seq<char>),
    ShellErrorView,
> {
    match text_of(field_of(args, "command"@)) {
        None => Err(ShellErrorView::MissingCommand),
        Some(command) => match text_of(field_of(args, "cwd"@)) {
            None => Ok((command, cwd)),
            Some(p) => match resolved(p, cwd, home) {
                Err(e) => Err(ShellErrorView::Path(e)),
                Ok(dir) => Ok((command, dir)),
            },
        },
    }
}

pub open spec fn shell_outcome(r: Result<ShellRequest, ShellError>) -> Result<
    (Seq<char>, Seq<char>),
    ShellErrorView,
> {
    match r {
        Ok(s) => Ok((s.command@, s.cwd@)),
        Err(e) => Err(e@),
    }
}

/// Reads the arguments of `shell_exec` and `shell_bg`.
pub fn plan_shell(args: &JsonValue, cwd: &str, home: Option<&str>) -> (r: Result<
    ShellRequest,
    ShellError,
>)
    ensures
        shell_outcome(r) == shell_request(args@, cwd@, opt_str(home)),
{
    let command = match args.get_str("command") {
        Some(c) => c.to_owned(),
        None => {
            return Err(ShellError::MissingCommand);
        },
    };
    match args.get_str("cwd") {
        None => Ok(ShellRequest { command, cwd: cwd.to_owned() }),
        Some(p) => match resolve(p, cwd, home) {
            Err(e) => Err(ShellError::Path(e)),
            Ok(dir) => Ok(ShellRequest { command, cwd: dir }),
        },
    }
}

// ---------------------------------------------------------------------------
// Its output
// ---------------------------------------------------------------------------

/// The bytes that are streamed before the notes.
pub fn streaming_cap(cap: usize) -> (r: usize)
    ensures
        r == if cap >= OUTPUT_NOTE_BYTES {
            cap - OUTPUT_NOTE_BYTES
        } else {
            0
        },
{
    cap.saturating_sub(OUTPUT_NOTE_BYTES)
}

/// The bytes of a chunk of `n` that are kept, when `seen` bytes came before it:
/// those among the first `cap` of all.
pub open spec fn admitted(n: nat, seen: nat, cap: nat) -> nat {
    if seen >= cap {
        0
    } else if n <= cap - seen {
        n
    } else {
        (cap - seen) as nat
    }
}

/// How many bytes of a chunk of `n` are kept, when `seen` bytes were read
/// before it, on whichever stream: the streams share one cap.
pub fn kept_of_chunk(n: usize, seen: usize, cap: usize) -> (r: usize)
    ensures
        r == admitted(n as nat, seen as nat, cap as nat),
{
    if seen < cap {
        let room: usize = cap - seen;
        if n <= room {
            n
        } else {
            room
        }
    } else {
        0
    }
}

/// The bytes that were read once `n` more came in.
pub open spec fn seen_after(seen: nat, n: nat) -> nat {
    if seen + n <= usize::MAX {
        seen + n
    } else {
        usize::MAX as nat
    }
}

/// What the streams of a command may still add to its output. They share it:
/// `seen` counts the bytes that were read on any of them, `kept` those of the
/// texts that were kept, which decoding can make longer.
#[derive(Debug)]
pub struct OutputBudget {
    pub cap: usize,
    pub seen: usize,
    pub kept: usize,
}

impl OutputBudget {
    pub open spec fn wf(self) -> bool {
        self.kept <= self.cap
    }

    pub fn new(cap: usize) -> (r: OutputBudget)
        ensures
            r.wf(),
            r == (OutputBudget { cap, seen: 0, kept: 0 }),
    {
        OutputBudget { cap, seen: 0, kept: 0 }
    }

    /// Counts a chunk of `n` bytes, and says how many of them are kept.
    pub fn count_chunk(&mut self, n: usize) -> (r: usize)
        ensures
            r == admitted(n as nat, old(self).seen as nat, old(self).cap as nat),
            final(self).seen == seen_after(old(self).seen as nat, n as nat),
            final(self).cap == old(self).cap,
            final(self).kept == old(self).kept,
    {
        let r: usize = kept_of_chunk(n, self.seen, self.cap);
        self.seen = self.seen.saturating_add(n);
        r
    }

    /// Adds to a buffer as much of a text as there is room for.
    pub fn keep(&mut self, buf: &mut String, text: &str)
        requires
            old(self).wf(),
        ensures
            final(self).wf(),
            final(self).cap == old(self).cap,
            final(self).seen == old(self).seen,
            final(buf)@ == old(buf)@ + fitting(text@, (old(self).cap - old(self).kept) as nat),
            final(self).kept == old(self).kept + utf8_len(
                fitting(text@, (old(self).cap - old(self).kept) as nat),
            ),
    {
        let part = fit_bytes(text, self.cap - self.kept);
        self.kept = self.kept + encoded_len(part.as_str());
        buf.append(part.as_str());
    }

    /// Takes in a chunk that a stream brought: what the budget admits of it is
    /// decoded and added to the buffer of the stream.
    pub fn pump(&mut self, buf: &mut String, chunk: &Vec<u8>)
        requires
            old(self).wf(),
        ensures
            final(self).wf(),
            final(self).cap == old(self).cap,
            ({
                let (seen, kept, text) = pump_step(
                    old(self).cap as nat,
                    old(self).seen as nat,
                    old(self).kept as nat,
                    chunk@,
                );
                &&& final(self).seen == seen
                &&& final(self).kept == kept
                &&& final(buf)@ == old(buf)@ + text
            }),
    {
        let n: usize = self.count_chunk(chunk.len());
        let mut part: Vec<u8> = Vec::new();
        let mut i: usize = 0;
        while i < n
            invariant
                i <= n <= chunk.len(),
                part@ == chunk@.take(i as int),
            decreases n - i,
        {
            part.push(chunk[i]);
            assert(part@ =~= chunk@.take(i + 1));
            i += 1;
        }
        let text = decode_lossy(&part);
        self.keep(buf, text.as_str());
    }
}

/// The bytes read, the bytes kept and the text added once a chunk came in.
pub open spec fn pump_step(cap: nat, seen: nat, kept: nat, chunk: Seq<u8>) -> (
    nat,
    nat,
    Seq<char>,
) {
    let n = admitted(chunk.len(), seen, cap);
    let text = fitting(lossy_text(chunk.take(n as int)), (cap - kept) as nat);
    (seen_after(seen, chunk.len()), kept + utf8_len(text), text)
}

/// A chunk that one of two streams brought.
pub struct StreamChunk {
    pub first: bool,
    pub bytes: Seq<u8>,
}

/// A budget that two streams share, and the buffers they fill.
pub struct SharedOutput {
    pub seen: nat,
    pub kept: nat,
    pub first: Seq<char>,
    pub second: Seq<char>,
}

/// What two streams leave behind that share one cap, in the order in which
/// their chunks came.
pub open spec fn pumped(chunks: Seq<StreamChunk>, cap: nat) -> SharedOutput
    decreases chunks.len(),
{
    if chunks.len() == 0 {
        SharedOutput { seen: 0, kept: 0, first: seq![], second: seq![] }
    } else {
        let before = pumped(chunks.drop_last(), cap);
        let chunk = chunks.last();
        let (seen, kept, text) = pump_step(cap, before.seen, before.kept, chunk.bytes);
        if chunk.first {
            SharedOutput { seen, kept, first: before.first + text, second: before.second }
        } else {
            SharedOutput { seen, kept, first: before.first, second: before.second + text }
        }
    }
}

/// However the chunks of two streams follow each other, and whatever they
/// decode to, the two texts together take no more bytes than the cap.
pub proof fn shared_output_stays_under_the_cap(chunks: Seq<StreamChunk>, cap: nat)
    ensures
        utf8_len(pumped(chunks, cap).first) + utf8_len(pumped(chunks, cap).second) == pumped(
            chunks,
            cap,
        ).kept,
        pumped(chunks, cap).kept <= cap,
    decreases chunks.len(),
{
    if chunks.len() > 0 {
        shared_output_stays_under_the_cap(chunks.drop_last(), cap);
        let before = pumped(chunks.drop_last(), cap);
        let chunk = chunks.last();
        let (seen, kept, text) = pump_step(cap, before.seen, before.kept, chunk.bytes);
        let n = admitted(chunk.bytes.len(), before.seen, cap);
        lemma_fitting_fits(lossy_text(chunk.bytes.take(n as int)), (cap - before.kept) as nat);
        lemma_utf8_len_concat(before.first, text);
        lemma_utf8_len_concat(before.second, text);
    }
}

/// The bytes in some chunks.
pub open spec fn total_bytes(chunks: Seq<nat>) -> nat
    decreases chunks.len(),
{
    if chunks.len() == 0 {
        0
    } else {
        total_bytes(chunks.drop_last()) + chunks.last()
    }
}

/// The bytes that are kept of some chunks.
pub open spec fn total_admitted(chunks: Seq<nat>, cap: nat) -> nat
    decreases chunks.len(),
{
    if chunks.len() == 0 {
        0
    } else {
        total_admitted(chunks.drop_last(), cap) + admitted(
            chunks.last(),
            total_bytes(chunks.drop_last()),
            cap,
        )
    }
}

/// Of everything that comes in, on whichever stream, the first bytes up to the
/// cap are kept and no others.
pub proof fn first_bytes_are_kept(chunks: Seq<nat>, cap: nat)
    ensures
        total_admitted(chunks, cap) == if total_bytes(chunks) <= cap {
            total_bytes(chunks)
        } else {
            cap
        },
    decreases chunks.len(),
{
    if chunks.len() > 0 {
        first_bytes_are_kept(chunks.drop_last(), cap);
    }
}

/// How a command ended.
#[derive(Clone, Copy, Debug, PartialEq, Eq, Structural)]
pub struct ExitStatus {
    pub success: bool,
    /// The exit code; there is none where a signal ended the process.
    pub code: Option<i32>,
}

/// What stopped the wait for a command.
#[derive(Clone, Copy, Debug, PartialEq, Eq, Structural)]
pub enum ShellEnd {
    Exited,
    TimedOut,
    Canceled,
}

/// What the watcher of a command does next: a cancel comes before the clock,
/// the clock before the exit of the process.
pub fn watch_shell(canceled: bool, elapsed_secs: u64, exited: bool) -> (r: Option<ShellEnd>)
    ensures
        r == (if canceled {
            Some(ShellEnd::Canceled)
        } else if elapsed_secs >= SHELL_EXEC_TIMEOUT_SECS {
            Some(ShellEnd::TimedOut)
        } else if exited {
            Some(ShellEnd::Exited)
        } else {
            None
        }),
{
    if canceled {
        Some(ShellEnd::Canceled)
    } else if elapsed_secs >= SHELL_EXEC_TIMEOUT_SECS {
        Some(ShellEnd::TimedOut)
    } else if exited {
        Some(ShellEnd::Exited)
    } else {
        None
    }
}

/// The working directory after a command: the one it left behind, if any.
pub fn adopted_cwd(cwd: &str, left_behind: Option<&str>) -> (r: String)
    ensures
        r@ == (match left_behind {
            Some(dir) => if trimmed(dir@).len() > 0 {
                trimmed(dir@)
            } else {
                cwd@
            },
            None => cwd@,
        }),
{
    match left_behind {
        Some(dir) => {
            let dir = trim(dir);
            if !dir.as_str().is_empty() {
                dir
            } else {
                cwd.to_owned()
            }
        },
        None => cwd.to_owned(),
    }
}

/// Whether a line of the output is a marker rather than output.
pub open spec fn marker_line(line: Seq<char>) -> bool {
    "__KAKU_CWD__:"@.is_prefix_of(line)
}

/// The lines that are no markers.
pub open spec fn plain_lines(all: Seq<Seq<char>>) -> Seq<Seq<char>>
    decreases all.len(),
{
    if all.len() == 0 {
        seq![]
    } else {
        let before = plain_lines(all.drop_last());
        if marker_line(all.last()) {
            before
        } else {
            before.push(all.last())
        }
    }
}

pub open spec fn ends_in_newline(s: Seq<char>) -> bool {
    s.len() > 0 && s.last() == '\n'
}

/// The standard output without markers; a final line feed is kept.
pub open spec fn plain_output(stdout: Seq<char>) -> Seq<char> {
    let body = joined(plain_lines(lines_of(stdout)), "\n"@);
    if ends_in_newline(stdout) && !ends_in_newline(body) {
        body.push('\n')
    } else {
        body
    }
}

fn strip_markers(stdout: &str) -> (r: String)
    ensures
        r@ == plain_output(stdout@),
{
    let all = lines(stdout);
    let ghost texts = views(all@);
    let mut kept: Vec<String> = Vec::new();
    let mut i: usize = 0;
    assert(views(kept@) =~= seq![]);
    while i < all.len()
        invariant
            i <= all.len(),
            texts == views(all@),
            views(kept@) == plain_lines(texts.take(i as int)),
        decreases all.len() - i,
    {
        let ghost before = views(kept@);
        proof {
            assert(texts.take(i + 1).drop_last() =~= texts.take(i as int));
            assert(texts.take(i + 1).last() == all@[i as int]@);
        }
        if !starts_with(all[i].as_str(), "__KAKU_CWD__:") {
            kept.push(all[i].clone());
            assert(views(kept@) =~= before.push(all@[i as int]@));
        }
        i += 1;
    }
    assert(texts.take(i as int) =~= texts);
    let mut out = join(&kept, "\n");
    if is_newline_ended(stdout) && !is_newline_ended(out.as_str()) {
        out.push('\n');
    }
    out
}

fn is_newline_ended(s: &str) -> (r: bool)
    ensures
        r == ends_in_newline(s@),
{
    let cs = chars_of(s);
    cs.len() > 0 && cs[cs.len() - 1] == '\n'
}

/// Both streams: the error output behind a mark.
pub open spec fn merged_output(stdout: Seq<char>, stderr: Seq<char>) -> Seq<char> {
    let out = plain_output(stdout);
    if stderr.len() == 0 {
        out
    } else if out.len() == 0 {
        out + "[stderr] "@ + stderr
    } else {
        out + "\n"@ + "[stderr] "@ + stderr
    }
}

pub open spec fn overflow_note(cap: nat, total: nat) -> Seq<char> {
    "\n[truncated: first ~"@ + decimal(cap) + " bytes shown ("@ + decimal(total)
        + " total). For large output, use shell_bg + shell_poll to avoid waiting.]"@
}

pub open spec fn end_note(end: ShellEnd, status: Option<ExitStatus>) -> Seq<char> {
    match end {
        ShellEnd::Canceled => "\n[canceled by user before completion]"@,
        ShellEnd::TimedOut => "\n[killed: exceeded "@ + decimal(SHELL_EXEC_TIMEOUT_SECS as nat)
            + "s timeout. For long-running commands use shell_bg + shell_poll; for searching code use grep_search.]"@,
        ShellEnd::Exited => match status {
            Some(s) => if s.success {
                seq![]
            } else {
                "\n[exit "@ + decimal_int(exit_code(s)) + "]"@
            },
            None => seq![],
        },
    }
}

/// The exit code, or -1 where there is none.
pub open spec fn exit_code(s: ExitStatus) -> int {
    match s.code {
        Some(c) => c as int,
        None => -1,
    }
}

/// What a command reports: its output, how much of it is missing, and how it
/// ended.
pub open spec fn shell_report_text(
    stdout: Seq<char>,
    stderr: Seq<char>,
    overflow: Option<nat>,
    cap: nat,
    end: ShellEnd,
    status: Option<ExitStatus>,
) -> Seq<char> {
    let out = merged_output(stdout, stderr) + match overflow {
        Some(total) => overflow_note(cap, total),
        None => seq![],
    } + end_note(end, status);
    if trimmed(out).len() == 0 {
        "(no output)"@
    } else {
        out
    }
}

/// Puts the report of a command together. `overflow` is the number of bytes
/// that came in where that reached the cap.
pub fn shell_report(
    stdout: &str,
    stderr: &str,
    overflow: Option<usize>,
    cap: usize,
    end: ShellEnd,
    status: Option<ExitStatus>,
) -> (r: String)
    ensures
        r@ == shell_report_text(
            stdout@,
            stderr@,
            match overflow {
                Some(n) => Some(n as nat),
                None => None,
            },
            cap as nat,
            end,
            status,
        ),
{
    let mut out = strip_markers(stdout);
    if !stderr.is_empty() {
        if !out.as_str().is_empty() {
            out.append("\n");
        }
        out.append("[stderr] ");
        out.append(stderr);
    }
    assert(out@ =~= merged_output(stdout@, stderr@));
    let ghost merged = out@;
    if let Some(total) = overflow {
        let note = concat5(
            "\n[truncated: first ~",
            decimal_of(cap as u128).as_str(),
            " bytes shown (",
            decimal_of(total as u128).as_str(),
            " total). For large output, use shell_bg + shell_poll to avoid waiting.]",
        );
        out.append(note.as_str());
    }
    match end {
        ShellEnd::Canceled => out.append("\n[canceled by user before completion]"),
        ShellEnd::TimedOut => out.append(
            concat3(
                "\n[killed: exceeded ",
                decimal_of(SHELL_EXEC_TIMEOUT_SECS as u128).as_str(),
                "s timeout. For long-running commands use shell_bg + shell_poll; for searching code use grep_search.]",
            ).as_str(),
        ),
        ShellEnd::Exited => {
            if let Some(s) = status {
                if !s.success {
                    let code: i32 = match s.code {
                        Some(c) => c,
                        None => -1,
                    };
                    out.append(
                        concat3("\n[exit ", decimal_of_signed(code as i128).as_str(), "]").as_str(),
                    );
                }
            }
        },
    }
    let ghost total = match overflow {
        Some(n) => Some(n as nat),
        None => None,
    };
    assert(out@ =~= merged + (match total {
        Some(t) => overflow_note(cap as nat, t),
        None => seq![],
    }) + end_note(end, status));
    if trim(out.as_str()).as_str().is_empty() {
        "(no output)".to_owned()
    } else {
        out
    }
}

// ---------------------------------------------------------------------------
// Background processes
// ---------------------------------------------------------------------------

/// What is said when a background process was started.
pub fn background_started(pid: u32) -> (r: String)
    ensures
        r@ == "Background process started (pid "@ + decimal(pid as nat)
            + "). Use shell_poll to check status."@,
{
    concat3(
        "Background process started (pid ",
        decimal_of(pid as u128).as_str(),
        "). Use shell_poll to check status.",
    )
}

/// The process and the wait that a poll asks for.
pub open spec fn poll_request(args: JsonView) -> Result<(u32, u64), ShellErrorView> {
    match unsigned_of(field_of(args, "pid"@)) {
        None => Err(ShellErrorView::MissingPid),
        Some(n) => Ok(
            (
                (n as int % 0x1_0000_0000) as u32,
                match unsigned_of(field_of(args, "timeout_secs"@)) {
                    Some(t) => t,
                    None => 0,
                },
            ),
        ),
    }
}

/// Reads the arguments of `shell_poll`: the process, by the low bits of the
/// number given, and the seconds to wait.
pub fn plan_poll(args: &JsonValue) -> (r: Result<(u32, u64), ShellError>)
    ensures
        (match r {
            Ok(p) => Ok(p),
            Err(e) => Err(e@),
        }) == poll_request(args@),
{
    match args.get_u64("pid") {
        None => Err(ShellError::MissingPid),
        Some(n) => {
            let timeout: u64 = match args.get_u64("timeout_secs") {
                Some(t) => t,
                None => 0,
            };
            Ok(((n % 0x1_0000_0000) as u32, timeout))
        },
    }
}

/// What the watcher of a background process does next.
#[derive(Clone, Copy, Debug, PartialEq, Eq, Structural)]
pub enum PollStep {
    /// Reports the process as it is: ended with that status, or running.
    Report(Option<ExitStatus>),
    Wait,
}

/// Decides on the first look at a process: whoever does not wait, or finds it
/// ended, reports at once.
pub fn first_poll(timeout_secs: u64, status: Option<ExitStatus>) -> (r: PollStep)
    ensures
        r == if timeout_secs == 0 || status is Some {
            PollStep::Report(status)
        } else {
            PollStep::Wait
        },
{
    if timeout_secs == 0 || status.is_some() {
        PollStep::Report(status)
    } else {
        PollStep::Wait
    }
}

/// Decides on each later look: a cancel or the deadline ends the wait, as does
/// a process that is no longer known, or that ended.
pub fn next_poll(
    canceled: bool,
    past_deadline: bool,
    known: bool,
    status: Option<ExitStatus>,
) -> (r: PollStep)
    ensures
        r == (if canceled || past_deadline || !known {
            PollStep::Report(None)
        } else if status is Some {
            PollStep::Report(status)
        } else {
            PollStep::Wait
        }),
{
    if canceled || past_deadline || !known {
        PollStep::Report(None)
    } else if status.is_some() {
        PollStep::Report(status)
    } else {
        PollStep::Wait
    }
}

/// What a poll reports.
pub open spec fn poll_text(pid: u32, status: Option<ExitStatus>, output: Seq<char>) -> Seq<char> {
    let state = match status {
        Some(s) => "done"@ + " "@ + ("[exit "@ + decimal_int(exit_code(s)) + "]"@),
        None => "running"@ + " "@,
    };
    let head = "pid "@ + decimal(pid as nat) + ": "@ + state;
    if output.len() == 0 {
        head
    } else {
        head + "\n"@ + output
    }
}

pub fn poll_report(pid: u32, status: Option<ExitStatus>, output: &str) -> (r: String)
    ensures
        r@ == poll_text(pid, status, output@),
{
    let state = match status {
        Some(s) => {
            let code: i32 = match s.code {
                Some(c) => c,
                None => -1,
            };
            let exit = concat3("[exit ", decimal_of_signed(code as i128).as_str(), "]");
            concat3("done", " ", exit.as_str())
        },
        None => concat2("running", " "),
    };
    let head = concat4("pid ", decimal_of(pid as u128).as_str(), ": ", state.as_str());
    if output.is_empty() {
        head
    } else {
        concat3(head.as_str(), "\n", output)
    }
}

} // verus!
