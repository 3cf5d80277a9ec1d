//! What is said: errors name what is wrong, and notes hold what they are about.
use crate::chat_app::{
    AppView, ModeView, OverlayEvent, SuggestReply, memory_text, picked_meta, redraws, rows_shown,
    suggestion_text,
};
use crate::chat_input::pasted;
use crate::chat_prompt::{
    DirEntry, Skill, all_slash_commands, builtin_commands, entry_name, entry_names, name_keys,
    sorted_entries, submits_at_once,
};
use crate::chat_stream::{EventView, note_of};
use crate::codex_connection::{CodexErrorView, codex_error_text};
use crate::laws::{holds, holds_in_order, lemma_stands_between, stands_at};
use crate::order::{precedes, stable_order, stable_order_sorts};
use crate::paths::{PathErrorView, path_error_text};
use crate::shell::{ShellErrorView, shell_error_text};
use crate::text::{decimal, lowered, text_le, trimmed};
use crate::tools::{ToolErrorView, tool_error_text};
use crate::web::{HttpErrorView, http_error_text, shown_body};
use crate::web_search::{SearchErrorView, search_error_text};
use vstd::prelude::*;
use vstd::string::*;

verus! {

proof fn lemma_last(a: Seq<char>, x: Seq<char>)
    ensures
        holds(a + x, x),
        x.is_suffix_of(a + x),
{
    lemma_stands_between(a, x, seq![]);
    assert(a + x + seq![] =~= a + x);
    let s = a + x;
    assert(s.subrange(s.len() - x.len(), s.len() as int) =~= x);
}

proof fn lemma_two(a: Seq<char>, x: Seq<char>, b: Seq<char>, y: Seq<char>, c: Seq<char>)
    ensures
        holds_in_order(a + x + b + y + c, x, y),
        holds(a + x + b + y + c, x),
        holds(a + x + b + y + c, y),
{
    let s = a + x + b + y + c;
    assert(s.subrange(a.len() as int, (a.len() + x.len()) as int) =~= x);
    let at = a.len() + x.len() + b.len();
    assert(s.subrange(at as int, (at + y.len()) as int) =~= y);
    assert(stands_at(s, x, a.len() as int));
    assert(stands_at(s, y, at as int));
}

// ---------------------------------------------------------------------------
// Errors
// ---------------------------------------------------------------------------

/// Whatever path is refused, the error names it.
pub proof fn path_errors_name_the_path(p: Seq<char>)
    ensures
        holds(path_error_text(PathErrorView::Protected(p)), p),
        holds(path_error_text(PathErrorView::CredentialDirectory(p)), p),
        holds(path_error_text(PathErrorView::CredentialFile(p)), p),
        holds(path_error_text(PathErrorView::OutsideWorkingDirectory(p)), p),
        holds(path_error_text(PathErrorView::WorkingDirectoryUnresolved(p)), p),
        holds(path_error_text(PathErrorView::AncestorUnresolved(p)), p),
        holds(path_error_text(PathErrorView::ReadTargetUnresolved(p)), p),
{
    lemma_stands_between("refused: '"@, p, "' is a protected secret location"@);
    lemma_stands_between("refused: '"@, p, "' is inside a credential directory"@);
    lemma_stands_between("refused: '"@, p, "' looks like a credential file"@);
    lemma_stands_between(
        "path '"@,
        p,
        "' resolves outside the working directory; use an absolute path to access it"@,
    );
    lemma_stands_between("resolve working directory '"@, p, "'"@);
    lemma_stands_between("resolve '"@, p, "'"@);
    lemma_stands_between("resolve read target '"@, p, "'"@);
}

/// The errors of tools name the tool, the process, the provider or the method
/// that is not known, and pass on what went wrong below them.
pub proof fn tool_errors_name_what_is_unknown(
    name: Seq<char>,
    pid: u32,
    s: ShellErrorView,
    p: PathErrorView,
)
    ensures
        name.is_suffix_of(tool_error_text(ToolErrorView::UnknownTool(name))),
        decimal(pid as nat).is_suffix_of(shell_error_text(ShellErrorView::UnknownPid(pid))),
        name.is_suffix_of(search_error_text(SearchErrorView::UnknownProvider(name))),
        name.is_suffix_of(http_error_text(HttpErrorView::UnsupportedMethod(name))),
        holds(http_error_text(HttpErrorView::NonPublic(name)), name),
        holds(http_error_text(HttpErrorView::Unresolved(name)), name),
        holds(http_error_text(HttpErrorView::NoAddresses(name)), name),
        tool_error_text(ToolErrorView::Shell(s)) == shell_error_text(s),
        shell_error_text(ShellErrorView::Path(p)) == path_error_text(p),
{
    lemma_last("unknown tool: "@, name);
    lemma_last("no background process with pid "@, decimal(pid as nat));
    lemma_last("unknown web_search provider: "@, name);
    lemma_last("unsupported HTTP method: "@, name);
    lemma_stands_between("http_request refuses non-public destination `"@, name, "`"@);
    lemma_stands_between("resolve http_request host `"@, name, "`"@);
    lemma_stands_between("http_request host `"@, name, "` resolved to no addresses"@);
}

/// An error in the connection names the field or the provider that it is about.
pub proof fn connection_errors_name_the_field(f: Seq<char>)
    ensures
        holds(codex_error_text(CodexErrorView::NotText(f)), f),
        holds(codex_error_text(CodexErrorView::InvalidBaseUrl(f)), f),
        holds(codex_error_text(CodexErrorView::NotHttpBaseUrl(f)), f),
        holds(codex_error_text(CodexErrorView::NotTable(f)), f),
        holds(codex_error_text(CodexErrorView::NotBoolean(f)), f),
        holds(codex_error_text(CodexErrorView::UnsupportedAuthMode(f)), f),
        holds(codex_error_text(CodexErrorView::UnsupportedAuthModeForProvider(f)), f),
        holds(codex_error_text(CodexErrorView::NotUnsigned(f)), f),
        holds(codex_error_text(CodexErrorView::TooLarge(f)), f),
        holds_in_order(codex_error_text(CodexErrorView::NoProviderTable(f)), f, f),
{
    lemma_stands_between("Codex field `"@, f, "` must be a string"@);
    lemma_stands_between("Codex provider `"@, f, "` has invalid base_url"@);
    lemma_stands_between("Codex provider `"@, f, "` base_url must be an absolute HTTP(S) URL"@);
    lemma_stands_between("Codex provider field `"@, f, "` must be a table"@);
    lemma_stands_between("Codex provider `"@, f, "` field `requires_openai_auth` must be boolean"@);
    lemma_stands_between("Codex auth_mode `"@, f, "` is unsupported; Kaku sent no request"@);
    lemma_stands_between("Codex auth_mode `"@, f, "` is unsupported"@);
    lemma_stands_between("Codex field `"@, f, "` must be a non-negative integer"@);
    lemma_stands_between("Codex field `"@, f, "` is too large"@);
    lemma_two("Codex model_provider `"@, f, "` has no [model_providers."@, f, "] table"@);
}

/// An error that is about two things names both, in order.
pub proof fn connection_errors_name_both(p: Seq<char>, f: Seq<char>, n: u32)
    ensures
        holds_in_order(
            codex_error_text(CodexErrorView::UnsupportedAuth { provider: p, field: f }),
            p,
            f,
        ),
        holds_in_order(
            codex_error_text(CodexErrorView::UnsupportedWireApi { provider: p, wire_api: f }),
            p,
            f,
        ),
        holds_in_order(
            codex_error_text(CodexErrorView::MissingField { provider: p, field: f }),
            p,
            f,
        ),
        holds_in_order(
            codex_error_text(CodexErrorView::EntryNotText { field: p, key: f }),
            p,
            f,
        ),
        holds_in_order(
            codex_error_text(CodexErrorView::MissingEnvironment { provider: p, name: f }),
            p,
            f,
        ),
        holds_in_order(
            codex_error_text(CodexErrorView::TooManyRetries { provider: p, retries: n }),
            p,
            decimal(n as nat),
        ),
{
    lemma_two(
        "Codex provider `"@,
        p,
        "` uses unsupported authentication field `"@,
        f,
        "`; Kaku sent no request"@,
    );
    lemma_two(
        "Codex provider `"@,
        p,
        "` uses unsupported wire_api `"@,
        f,
        "`; Kaku sent no request"@,
    );
    lemma_two("Codex provider `"@, p, "` is missing required field `"@, f, "`"@);
    lemma_two("Codex provider field `"@, p, "."@, f, "` must be a string"@);
    lemma_two(
        "Codex provider `"@,
        p,
        "` requires environment variable `"@,
        f,
        "` in the Kaku process"@,
    );
    let d = decimal(n as nat);
    let max = decimal(crate::codex_connection::MAX_CONFIGURED_RETRIES as nat);
    let tail = " retries; maximum supported is "@;
    lemma_two("Codex provider `"@, p, "` configures "@, d, tail + max);
    assert("Codex provider `"@ + p + "` configures "@ + d + (tail + max) =~= "Codex provider `"@ + p
        + "` configures "@ + d + tail + max);
}

// ---------------------------------------------------------------------------
// The chat
// ---------------------------------------------------------------------------

/// A suggestion is shown whole; where there is none, nothing of the reply is.
pub proof fn suggestions_are_shown_whole(reply: SuggestReply, other: SuggestReply)
    ensures
        reply matches SuggestReply::Suggestion(s) ==> (trimmed(s@).len() > 0
            ==> s@.is_suffix_of(suggestion_text(reply))),
        !(reply is Suggestion) && !(other is Suggestion) ==> suggestion_text(reply)
            == suggestion_text(other),
{
    if let SuggestReply::Suggestion(s) = reply {
        lemma_last("Suggested next message: "@, s@);
    }
}

/// The note on the memory names the four files in the directory, and how many of
/// the entries that there is room for are taken.
pub proof fn memory_notes_name_the_files(dir: Seq<char>, entries: nat, cap: nat)
    ensures
        holds(memory_text(dir, entries, cap), dir + "/SOUL.md"@ + "\nSTYLE   "@ + dir),
        holds(memory_text(dir, entries, cap), "("@ + decimal(entries) + "/"@ + decimal(cap)),
{
    reveal_strlit("/SOUL.md\nSTYLE   ");
    reveal_strlit("/SOUL.md");
    reveal_strlit("\nSTYLE   ");
    reveal_strlit("/MEMORY.md   (");
    reveal_strlit("/MEMORY.md   ");
    reveal_strlit("(");
    assert("/SOUL.md\nSTYLE   "@ =~= "/SOUL.md"@ + "\nSTYLE   "@);
    let text = memory_text(dir, entries, cap);
    let one = dir + "/SOUL.md"@ + "\nSTYLE   "@ + dir;
    let rest = "/STYLE.md\nSKILL   "@ + dir + "/SKILL.md\nMEMORY  "@ + dir + "/MEMORY.md   ("@
        + decimal(entries) + "/"@ + decimal(cap) + " entries)"@;
    assert(text =~= "SOUL    "@ + one + rest);
    lemma_stands_between("SOUL    "@, one, rest);
    let two = "("@ + decimal(entries) + "/"@ + decimal(cap);
    let lead = "SOUL    "@ + dir + "/SOUL.md\nSTYLE   "@ + dir + "/STYLE.md\nSKILL   "@ + dir
        + "/SKILL.md\nMEMORY  "@ + dir + "/MEMORY.md   "@;
    assert("/MEMORY.md   ("@ =~= "/MEMORY.md   "@ + "("@);
    assert(text =~= lead + two + " entries)"@);
    lemma_stands_between(lead, two, " entries)"@);
}

/// The line that is picked is the one under that place, where there is one.
pub proof fn the_picked_line_is_resumed(mode: ModeView, idx: usize)
    ensures
        mode is Chat ==> picked_meta(mode, idx) is None,
        mode matches ModeView::ResumePicker { items, .. } ==> {
            &&& picked_meta(mode, idx) is Some <==> idx < items.len()
            &&& idx < items.len() ==> picked_meta(mode, idx) == Some(items[idx as int])
        },
{
}

/// The line of input has at least one row and at most five, and as many as it
/// needs in between; while a question waits for an answer it has one.
pub proof fn the_input_has_the_rows_it_needs(app: AppView, rows: usize)
    ensures
        1 <= rows_shown(app, rows) <= 5,
        app.stream.pending_approval is Some ==> rows_shown(app, rows) == 1,
        app.stream.pending_approval is None && 1 <= rows <= 5 ==> rows_shown(app, rows) == rows,
        app.stream.pending_approval is None && rows > 5 ==> rows_shown(app, rows) == 5,
{
}

/// While an answer comes in or is still to be shown, every pause redraws; a
/// pasted text without anything to keep, and what is none of the chat's concern,
/// do not.
pub proof fn redraws_follow_what_changed(app: AppView, text: String, ms: u128, cols: usize, rows: usize)
    ensures
        app.stream.is_streaming || app.stream.queue.len() > 0 ==> redraws(
            app,
            OverlayEvent::Timeout { elapsed_ms: ms },
        ),
        redraws(app, OverlayEvent::Paste(text)) <==> pasted(text@).len() > 0,
        redraws(app, OverlayEvent::Key { quits: false }) && !redraws(
            app,
            OverlayEvent::Key { quits: true },
        ),
        redraws(app, OverlayEvent::Resized { cols, rows }),
        redraws(app, OverlayEvent::Mouse),
        !redraws(app, OverlayEvent::Other),
        !app.stream.is_streaming && app.stream.queue.len() == 0 && !app.stream.pending_done && ms
            < 140 ==> !redraws(app, OverlayEvent::Timeout { elapsed_ms: ms }),
{
}

/// A notification about an approval says how its summary begins, at most a
/// hundred characters of it; nothing else leads to one.
pub proof fn approval_notes_begin_the_summary(events: Seq<EventView>, taken: nat)
    requires
        taken <= events.len(),
    ensures
        taken > 0 ==> (events[taken - 1] matches EventView::ApprovalRequired { summary } ==> (note_of(
            events,
            taken,
        ) matches Some(note) && note.is_prefix_of(summary) && note.len() <= 100 && (summary.len()
            <= 100 ==> note == summary) && (summary.len() > 100 ==> note.len() == 100))),
        taken == 0 || !(events[taken - 1] is ApprovalRequired) ==> note_of(events, taken) is None,
{
    if taken > 0 {
        if let EventView::ApprovalRequired { summary } = events[taken - 1] {
            let note = note_of(events, taken)->0;
            assert(summary.subrange(0, note.len() as int) =~= note);
        }
    }
}

/// A JSON body is shown indented where it can be printed; any other body is shown
/// as it came.
pub proof fn bodies_are_shown(body: Seq<char>)
    ensures
        crate::json::json_document(body) is None ==> shown_body(body) == body,
        crate::json::json_document(body) matches Some(v) ==> (crate::json::json_pretty(v)
            matches Some(printed) ==> shown_body(body) == printed),
{
}

// ---------------------------------------------------------------------------
// Commands and directories
// ---------------------------------------------------------------------------

/// Every skill has its command beside the built-in ones; of those, all but the
/// side question are sent as soon as they are picked.
pub proof fn every_skill_has_a_command(skills: Seq<Skill>, i: int, k: int)
    requires
        0 <= k < builtin_commands().len(),
    ensures
        0 <= i < skills.len() ==> all_slash_commands(skills).contains(
            (skills[i].command@, skills[i].description@),
        ),
        all_slash_commands(skills).contains(builtin_commands()[k]),
        all_slash_commands(skills).len() == builtin_commands().len() + skills.len(),
        submits_at_once(builtin_commands()[k].0) <==> builtin_commands()[k].0 != "/btw"@,
{
    reveal_strlit("/btw");
    reveal_strlit("/new");
    reveal_strlit("/resume");
    reveal_strlit("/clear");
    reveal_strlit("/export");
    reveal_strlit("/memory");
    reveal_strlit("/status");
    reveal_strlit("/suggest");
    reveal_strlit("/model");
    reveal_strlit("/config");
    let all = all_slash_commands(skills);
    let b = builtin_commands();
    assert(all[k] == b[k]);
    if 0 <= i < skills.len() {
        assert(all[b.len() + i] == (skills[i].command@, skills[i].description@));
    }
    assert("/btw"@.len() == 4 && "/btw"@[1] == 'b');
    assert("/new"@[1] == 'n');
    assert("/resume"@.len() == 7);
    assert("/clear"@.len() == 6);
    assert("/export"@.len() == 7);
    assert("/memory"@.len() == 7);
    assert("/status"@.len() == 7);
    assert("/suggest"@.len() == 8);
    assert("/model"@.len() == 6);
    assert("/config"@.len() == 7);
}

/// A directory lists each of its entries once, by name without regard to case,
/// and marks the directories among them.
pub proof fn entries_are_listed_by_name(list: Seq<DirEntry>, i: int, a: int, b: int)
    ensures
        sorted_entries(list).len() == list.len(),
        0 <= i < list.len() ==> sorted_entries(list).contains(
            if list[i].is_dir {
                list[i].name@ + seq!['/']
            } else {
                list[i].name@
            },
        ),
        0 <= a < b < list.len() ==> text_le(
            lowered(sorted_entries(list)[a]),
            lowered(sorted_entries(list)[b]),
        ),
{
    let names = entry_names(list);
    let keys = name_keys(names);
    stable_order_sorts(keys);
    let order = stable_order(keys);
    if 0 <= i < list.len() {
        assert(list[i].name@.push('/') =~= list[i].name@ + seq!['/']);
        assert(order.contains(i));
        let k = choose|k: int| 0 <= k < order.len() && order[k] == i;
        assert(sorted_entries(list)[k] == entry_name(list[i]));
    }
    if 0 <= a < b < list.len() {
        assert(precedes(keys, order[a], order[b]));
    }
}

} // verus!
