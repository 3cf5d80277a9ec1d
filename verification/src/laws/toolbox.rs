//! The tools as the model sees them, and what the settings say of themselves.
use crate::chat_app::{AssistantSettings, config_text, or_text};
use crate::chat_display::{PlanView, ShownView, display_plan, planned};
use crate::chat_stream::{MessageView, Role};
use crate::commands::{ExpandedView, Translations, slug_of};
use crate::json::{JsonView, field_of, text_of, unsigned_of};
use crate::laws::catalogue::labels_show_their_translation;
use crate::laws::{holds, lemma_held_in_part, lemma_stands_between, stands_at};
use crate::menubar::{menu_titles, menu_titles_are_distinct, preferred_titles, shown_path, titled};
use crate::registry::{
    KindView, ToolView, file_tree_tool, fs_delete_tool, fs_list_tool, fs_mkdir_tool, fs_patch_tool,
    fs_read_tool, fs_write_tool, grep_search_tool, http_request_tool, memory_read_tool,
    project_summary_tool, pwd_tool, read_url_tool, shell_bg_tool, shell_exec_tool, shell_poll_tool,
    soul_read_tool, symbol_search_tool, web_fetch_tool, web_search_tool,
};
use crate::text::{joined, utf8_len, utf8_width, views};
use crate::tools::{CallView, grep_call};
use vstd::prelude::*;
use vstd::string::*;

verus! {

/// Whether a tool takes these parameters, in this order, and cannot do without
/// the first of them, as many as are needed.
pub open spec fn takes(tool: ToolView, names: Seq<Seq<char>>, needed: nat) -> bool {
    &&& tool.parameters.len() == names.len()
    &&& forall|k: int|
        0 <= k < names.len() ==> (#[trigger] tool.parameters[k]).name == names[k]
            && tool.parameters[k].required == (k < needed)
}

/// The tools for files take the path, and what is read or written there.
pub proof fn file_tools_take_a_path()
    ensures
        takes(fs_read_tool(), seq!["path"@, "start_line"@, "end_line"@], 1),
        takes(fs_list_tool(), seq!["path"@], 1),
        takes(fs_write_tool(), seq!["path"@, "content"@], 2),
        takes(fs_patch_tool(), seq!["path"@, "old_text"@, "new_text"@], 3),
        takes(fs_mkdir_tool(), seq!["path"@], 1),
        takes(fs_delete_tool(), seq!["path"@], 1),
        takes(project_summary_tool(), seq!["path"@], 0),
        takes(file_tree_tool(), seq!["path"@, "depth"@], 0),
{
}

/// The tools for the shell take the command, or the process; those for the web
/// the URL, or the query.
pub proof fn shell_and_web_tools_take_what_they_run(provider: Seq<char>)
    ensures
        takes(shell_exec_tool(), seq!["command"@, "cwd"@, "detail"@], 1),
        takes(shell_bg_tool(), seq!["command"@, "cwd"@], 1),
        takes(shell_poll_tool(), seq!["pid"@, "timeout_secs"@], 1),
        takes(pwd_tool(), seq![], 0),
        takes(web_fetch_tool(), seq!["url"@, "detail"@, "raw"@], 1),
        takes(read_url_tool(), seq!["url"@, "detail"@, "raw"@], 1),
        takes(
            web_search_tool(provider),
            seq!["query"@, "kind"@, "freshness"@, "search_depth"@],
            1,
        ),
        takes(http_request_tool(), seq!["method"@, "url"@, "headers"@, "body"@, "query"@], 2),
        takes(memory_read_tool(), seq![], 0),
        takes(soul_read_tool(), seq!["file"@], 0),
        holds(web_search_tool(provider).description, provider),
{
    lemma_stands_between(
        "Search the web using "@,
        provider,
        " and return results with title, URL, snippet, and (where supported) a direct AI answer. Use for finding current information, documentation, or answering questions. Use kind='news' for recent events; kind='deep' (pipellm) for richer RAG results; freshness to limit by recency."@,
    );
}

/// The tools for searching take what is searched for, and where.
pub proof fn search_tools_take_what_is_searched_for()
    ensures
        takes(symbol_search_tool(), seq!["query"@, "kind"@, "path"@, "glob"@], 1),
        takes(
            grep_search_tool(),
            seq![
                "pattern"@,
                "path"@,
                "glob"@,
                "context_lines"@,
                "case_insensitive"@,
                "max_results"@,
                "detail"@,
            ],
            1,
        ),
{
}

/// The words that a parameter offers are the ones that the tools know.
pub proof fn choices_are_the_words_that_count(provider: Seq<char>)
    ensures
        shell_exec_tool().parameters[2].kind == KindView::Choice(
            seq!["brief"@, "default"@, "full"@],
        ),
        web_fetch_tool().parameters[1].kind == shell_exec_tool().parameters[2].kind,
        read_url_tool().parameters[1].kind == shell_exec_tool().parameters[2].kind,
        grep_search_tool().parameters[6].kind == shell_exec_tool().parameters[2].kind,
        web_search_tool(provider).parameters[1].kind == KindView::Choice(
            seq!["web"@, "news"@, "deep"@],
        ),
        symbol_search_tool().parameters[1].kind == KindView::Choice(
            seq!["function"@, "type"@, "class"@, "method"@, "all"@],
        ),
        soul_read_tool().parameters[0].kind == KindView::Choice(
            seq!["soul"@, "style"@, "skill"@, "memory"@],
        ),
        http_request_tool().parameters[0].kind == KindView::Choice(
            seq!["GET"@, "POST"@, "PUT"@, "PATCH"@, "DELETE"@],
        ),
{
}

/// A number within the bounds that a search offers is the number that it goes by.
pub proof fn numbers_within_bounds_are_kept(args: JsonView, cwd: Seq<char>, n: u64)
    requires
        text_of(field_of(args, "pattern"@)) is Some,
    ensures
        grep_search_tool().parameters[3].kind matches KindView::Bounded(low, high) && (low <= n
            <= high && unsigned_of(field_of(args, "context_lines"@)) == Some(n) ==> (grep_call(
            args,
            cwd,
        ) matches Ok(CallView::GrepSearch { context_lines, .. }) && context_lines == n)),
        grep_search_tool().parameters[5].kind matches KindView::Bounded(low, high) && (low <= n
            <= high && unsigned_of(field_of(args, "max_results"@)) == Some(n) ==> (grep_call(
            args,
            cwd,
        ) matches Ok(CallView::GrepSearch { max_results, .. }) && max_results == n)),
{
}

// ---------------------------------------------------------------------------
// Settings
// ---------------------------------------------------------------------------

/// The note on the settings holds each of them.
pub proof fn settings_are_told(cfg: AssistantSettings)
    ensures
        holds(config_text(cfg), cfg.provider@),
        holds(config_text(cfg), cfg.api_mode@),
        holds(config_text(cfg), cfg.chat_model@),
        holds(config_text(cfg), cfg.base_url@),
        cfg.fast_model matches Some(m) ==> holds(config_text(cfg), m@),
        cfg.chat_model_choices@.len() > 0 ==> holds(
            config_text(cfg),
            joined(views(cfg.chat_model_choices@), ", "@),
        ),
        cfg.native_web_search ==> "native"@.is_suffix_of(config_text(cfg)),
        !cfg.native_web_search ==> (cfg.web_search_provider matches Some(p) ==> p@.is_suffix_of(
            config_text(cfg),
        )),
        !cfg.native_web_search && cfg.web_search_provider is None ==> "disabled"@.is_suffix_of(
            config_text(cfg),
        ),
{
    let choices = if cfg.chat_model_choices@.len() == 0 {
        "(dynamic)"@
    } else {
        joined(views(cfg.chat_model_choices@), ", "@)
    };
    let tools = if cfg.chat_tools_enabled {
        "true"@
    } else {
        "false"@
    };
    let web = if cfg.native_web_search {
        "native"@
    } else {
        or_text(cfg.web_search_provider, "disabled"@)
    };
    let one = lemma_line("provider          "@, cfg.provider@, "\napi_mode          "@, cfg.api_mode@);
    let fast = or_text(cfg.fast_model, cfg.chat_model@);
    let two = lemma_told(one, "\nsimple_model      "@, fast);
    let three = lemma_told(two, "\ndeep_model        "@, cfg.chat_model@);
    let four = lemma_told(three, "\nchat_model_choices "@, choices);
    let five = lemma_told(four, "\nbase_url          "@, cfg.base_url@);
    let six = lemma_told(five, "\nchat_tools_enabled "@, tools);
    let text = lemma_told(six, "\nweb_search        "@, web);
    assert(text == config_text(cfg));
}

/// A text with a name and a value behind it holds the value, and what it held.
proof fn lemma_told(before: Seq<char>, name: Seq<char>, value: Seq<char>) -> (text: Seq<char>)
    ensures
        text == before + name + value,
        holds(text, value),
        value.is_suffix_of(text),
        forall|x: Seq<char>| holds(before, x) ==> #[trigger] holds(text, x),
{
    let text = before + name + value;
    lemma_stands_between(before + name, value, seq![]);
    assert(before + name + value + seq![] =~= text);
    assert(text.subrange(text.len() - value.len(), text.len() as int) =~= value);
    assert(text.subrange(0, before.len() as int) =~= before);
    assert(stands_at(text, before, 0));
    assert forall|x: Seq<char>| holds(before, x) implies #[trigger] holds(text, x) by {
        lemma_held_in_part(text, before, x, 0);
    }
    text
}

proof fn lemma_line(a: Seq<char>, x: Seq<char>, b: Seq<char>, y: Seq<char>) -> (text: Seq<char>)
    ensures
        text == a + x + b + y,
        holds(text, x),
        holds(text, y),
{
    let first = lemma_told(seq![], a, x);
    assert(first =~= a + x);
    lemma_told(a + x, b, y)
}

/// The six menus that are always there come first, in their order.
pub proof fn the_known_menus_come_first(commands: Seq<ExpandedView>)
    ensures
        menu_titles(commands).len() >= 6,
        menu_titles(commands).take(6) == seq![
            "Kaku"@,
            "Shell"@,
            "Edit"@,
            "View"@,
            "Window"@,
            "Help"@,
        ],
{
    menu_titles_are_distinct(commands);
    let p = preferred_titles();
    let all = menu_titles(commands);
    assert(all.subrange(0, p.len() as int) == p);
    assert(all.take(6) =~= all.subrange(0, 6));
}

/// A menu holds commands of its own only.
pub proof fn menus_hold_their_own_commands(commands: Seq<ExpandedView>, title: Seq<char>, i: int)
    requires
        0 <= i < titled(commands, title).len(),
    ensures
        titled(commands, title)[i].menubar.len() > 0,
        titled(commands, title)[i].menubar[0] == title,
        commands.contains(titled(commands, title)[i]),
    decreases commands.len(),
{
    if commands.len() > 0 {
        let rest = commands.drop_last();
        let before = titled(rest, title);
        if i < before.len() {
            menus_hold_their_own_commands(rest, title, i);
            let k = choose|k: int| 0 <= k < rest.len() && rest[k] == before[i];
            assert(commands[k] == before[i]);
        } else {
            assert(commands[commands.len() - 1] == commands.last());
        }
    }
}

/// Each part of the way to an item shows as its translation, where there is one.
pub proof fn paths_show_their_translation(
    path: Seq<Seq<char>>,
    t: Translations,
    k: int,
    i: int,
)
    requires
        0 <= k < path.len(),
        slug_of(path[k]).len() > 0,
        0 <= i < t.entries@.len(),
        t.entries@[i].key@ == "commands.menubar."@ + slug_of(path[k]),
        t.entries@[i].text@ != "commands.menubar."@ + slug_of(path[k]),
        forall|j: int|
            0 <= j < i ==> (#[trigger] t.entries@[j]).key@ != "commands.menubar."@ + slug_of(path[k]),
    ensures
        shown_path(path, t).len() == path.len(),
        shown_path(path, t)[k] == t.entries@[i].text@,
{
    labels_show_their_translation("commands.menubar."@, path[k], t, i);
}

/// A header for tool calls alone is shown only while some wait for an answer.
pub proof fn waiting_calls_get_a_header(list: Seq<MessageView>, thinking: bool)
    ensures
        planned(list, thinking).1.len() == 0 ==> display_plan(list, thinking) == planned(
            list,
            thinking,
        ).0,
        planned(list, thinking).1.len() > 0 ==> display_plan(list, thinking).last()
            == PlanView::Line(
            ShownView::Header { role: Role::Assistant, tools: planned(list, thinking).1 },
        ),
        list.len() > 0 && list.last().tool_name is None ==> planned(list, thinking).1.len() == 0,
{
}

/// A character takes one byte in ASCII, and two, three or four where its number
/// needs more than seven, eleven or sixteen bits; a text takes as many as its
/// characters.
pub proof fn characters_take_their_bytes(c: char, a: Seq<char>, b: Seq<char>)
    ensures
        c as u32 <= 0x7f ==> utf8_width(c) == 1,
        0x80 <= c as u32 <= 0x7ff ==> utf8_width(c) == 2,
        0x800 <= c as u32 <= 0xffff ==> utf8_width(c) == 3,
        0x10000 <= c as u32 ==> utf8_width(c) == 4,
        utf8_len(a + b) == utf8_len(a) + utf8_len(b),
        utf8_len(seq![c]) == utf8_width(c),
{
    crate::text::lemma_utf8_len_concat(a, b);
    assert(seq![c].drop_last() =~= seq![]);
    reveal_with_fuel(utf8_len, 2);
}

} // verus!
