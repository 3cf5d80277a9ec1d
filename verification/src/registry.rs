//! Tool registry: ToolDef, all_tools, to_api_schema, and output budgets.
use crate::json::{
    JsonNumber, JsonValue, JsonView, add_field, add_value, field_views, json_string, json_views,
    no_fields, no_values, opt_str,
};
use crate::text::{concat3, decimal, decimal_of, opt_view, same, views};
use vstd::prelude::*;
use vstd::string::*;

verus! {

/// The assistant settings that the tools read.
#[derive(Debug)]
pub struct AssistantConfig {
    /// Whether a web search provider is set up.
    pub web_search_ready: bool,
    pub web_search_provider: Option<String>,
    pub web_search_api_key: Option<String>,
    pub web_fetch_script: Option<String>,
}

/// What a tool parameter takes.
#[derive(Debug)]
pub enum ParamKind {
    Text,
    /// One of a few words.
    Choice(Vec<String>),
    Integer,
    /// An integer between two bounds, both of them allowed.
    Bounded(u64, u64),
    Boolean,
    /// An object whose values are texts.
    TextMap,
}

pub enum KindView {
    Text,
    Choice(Seq<Seq<char>>),
    Integer,
    Bounded(u64, u64),
    Boolean,
    TextMap,
}

impl View for ParamKind {
    type V = KindView;

    open spec fn view(&self) -> KindView {
        match *self {
            ParamKind::Text => KindView::Text,
            ParamKind::Choice(words) => KindView::Choice(views(words@)),
            ParamKind::Integer => KindView::Integer,
            ParamKind::Bounded(low, high) => KindView::Bounded(low, high),
            ParamKind::Boolean => KindView::Boolean,
            ParamKind::TextMap => KindView::TextMap,
        }
    }
}

/// One parameter of a tool.
#[derive(Debug)]
pub struct ToolParameter {
    pub name: String,
    pub kind: ParamKind,
    pub description: Option<String>,
    pub required: bool,
}

pub struct ParamView {
    pub name: Seq<char>,
    pub kind: KindView,
    pub description: Option<Seq<char>>,
    pub required: bool,
}

impl View for ToolParameter {
    type V = ParamView;

    open spec fn view(&self) -> ParamView {
        ParamView {
            name: self.name@,
            kind: self.kind@,
            description: opt_view(self.description),
            required: self.required,
        }
    }
}

pub open spec fn param_views(list: Seq<ToolParameter>) -> Seq<ParamView> {
    list.map_values(|p: ToolParameter| p@)
}

/// A single callable tool exposed to the AI model.
#[derive(Debug)]
pub struct ToolDef {
    pub name: String,
    pub description: String,
    /// The parameters of the function.
    pub parameters: Vec<ToolParameter>,
}

pub struct ToolView {
    pub name: Seq<char>,
    pub description: Seq<char>,
    pub parameters: Seq<ParamView>,
}

impl View for ToolDef {
    type V = ToolView;

    open spec fn view(&self) -> ToolView {
        ToolView {
            name: self.name@,
            description: self.description@,
            parameters: param_views(self.parameters@),
        }
    }
}

pub open spec fn tool_views(list: Seq<ToolDef>) -> Seq<ToolView> {
    list.map_values(|t: ToolDef| t@)
}

pub open spec fn param(
    name: Seq<char>,
    kind: KindView,
    description: Option<Seq<char>>,
    required: bool,
) -> ParamView {
    ParamView { name, kind, description, required }
}

fn no_params() -> (r: Vec<ToolParameter>)
    ensures
        param_views(r@) == Seq::<ParamView>::empty(),
{
    let r: Vec<ToolParameter> = Vec::new();
    assert(param_views(r@) =~= Seq::empty());
    r
}

fn add_param(
    list: &mut Vec<ToolParameter>,
    name: &str,
    kind: ParamKind,
    description: Option<&str>,
    required: bool,
)
    ensures
        param_views(final(list)@) == param_views(old(list)@).push(
            param(name@, kind@, opt_str(description), required),
        ),
{
    let description = match description {
        Some(d) => Some(d.to_owned()),
        None => None,
    };
    list.push(ToolParameter { name: name.to_owned(), kind, description, required });
    assert(param_views(list@) =~= param_views(old(list)@).push(
        param(name@, kind@, opt_view(description), required),
    ));
}

fn make_tool(name: &str, description: &str, parameters: Vec<ToolParameter>) -> (r: ToolDef)
    ensures
        r@ == (ToolView {
            name: name@,
            description: description@,
            parameters: param_views(parameters@),
        }),
{
    ToolDef { name: name.to_owned(), description: description.to_owned(), parameters }
}

fn add_tool(list: &mut Vec<ToolDef>, tool: ToolDef)
    ensures
        tool_views(final(list)@) == tool_views(old(list)@).push(tool@),
{
    list.push(tool);
    assert(tool_views(list@) =~= tool_views(old(list)@).push(tool@));
}

fn choice2(a: &str, b: &str) -> (r: ParamKind)
    ensures
        r@ == KindView::Choice(seq![a@, b@]),
{
    let mut words: Vec<String> = Vec::new();
    words.push(a.to_owned());
    words.push(b.to_owned());
    assert(views(words@) =~= seq![a@, b@]);
    ParamKind::Choice(words)
}

fn choice3(a: &str, b: &str, c: &str) -> (r: ParamKind)
    ensures
        r@ == KindView::Choice(seq![a@, b@, c@]),
{
    let mut words: Vec<String> = Vec::new();
    words.push(a.to_owned());
    words.push(b.to_owned());
    words.push(c.to_owned());
    assert(views(words@) =~= seq![a@, b@, c@]);
    ParamKind::Choice(words)
}

fn choice4(a: &str, b: &str, c: &str, d: &str) -> (r: ParamKind)
    ensures
        r@ == KindView::Choice(seq![a@, b@, c@, d@]),
{
    let mut words: Vec<String> = Vec::new();
    words.push(a.to_owned());
    words.push(b.to_owned());
    words.push(c.to_owned());
    words.push(d.to_owned());
    assert(views(words@) =~= seq![a@, b@, c@, d@]);
    ParamKind::Choice(words)
}

fn choice5(a: &str, b: &str, c: &str, d: &str, e: &str) -> (r: ParamKind)
    ensures
        r@ == KindView::Choice(seq![a@, b@, c@, d@, e@]),
{
    let mut words: Vec<String> = Vec::new();
    words.push(a.to_owned());
    words.push(b.to_owned());
    words.push(c.to_owned());
    words.push(d.to_owned());
    words.push(e.to_owned());
    assert(views(words@) =~= seq![a@, b@, c@, d@, e@]);
    ParamKind::Choice(words)
}

// ---------------------------------------------------------------------------
// The tools
// ---------------------------------------------------------------------------

pub open spec fn fs_read_tool() -> ToolView {
    ToolView {
        name: "fs_read"@,
        description: "Read a file and return its content. By default returns the whole file up to the output cap. Use start_line / end_line to read a specific range (1-indexed, inclusive). Efficient for large files when you only need a section."@,
        parameters: seq![
            param("path"@, KindView::Text, Some("Absolute or ~/relative path"@), true),
            param(
                "start_line"@,
                KindView::Integer,
                Some("First line to return (1 = first line of file). Optional."@),
                false,
            ),
            param(
                "end_line"@,
                KindView::Integer,
                Some("Last line to return (inclusive). Optional."@),
                false,
            ),
        ],
    }
}

fn make_fs_read_tool() -> (r: ToolDef)
    ensures
        r@ == fs_read_tool(),
{
    let mut p = no_params();
    add_param(&mut p, "path", ParamKind::Text, Some("Absolute or ~/relative path"), true);
    add_param(
        &mut p,
        "start_line",
        ParamKind::Integer,
        Some("First line to return (1 = first line of file). Optional."),
        false,
    );
    add_param(
        &mut p,
        "end_line",
        ParamKind::Integer,
        Some("Last line to return (inclusive). Optional."),
        false,
    );
    assert(param_views(p@) =~= fs_read_tool().parameters);
    make_tool(
        "fs_read",
        "Read a file and return its content. By default returns the whole file up to the output cap. Use start_line / end_line to read a specific range (1-indexed, inclusive). Efficient for large files when you only need a section.",
        p,
    )
}

pub open spec fn fs_list_tool() -> ToolView {
    ToolView {
        name: "fs_list"@,
        description: "List files and sub-directories inside a directory. Directories are shown with a trailing /."@,
        parameters: seq![
            param("path"@, KindView::Text, Some("Directory path"@), true),
        ],
    }
}

fn make_fs_list_tool() -> (r: ToolDef)
    ensures
        r@ == fs_list_tool(),
{
    let mut p = no_params();
    add_param(&mut p, "path", ParamKind::Text, Some("Directory path"), true);
    assert(param_views(p@) =~= fs_list_tool().parameters);
    make_tool(
        "fs_list",
        "List files and sub-directories inside a directory. Directories are shown with a trailing /.",
        p,
    )
}

pub open spec fn fs_write_tool() -> ToolView {
    ToolView {
        name: "fs_write"@,
        description: "Write (create or overwrite) a file with the given content. Parent directories are created automatically."@,
        parameters: seq![
            param("path"@, KindView::Text, None, true),
            param("content"@, KindView::Text, None, true),
        ],
    }
}

fn make_fs_write_tool() -> (r: ToolDef)
    ensures
        r@ == fs_write_tool(),
{
    let mut p = no_params();
    add_param(&mut p, "path", ParamKind::Text, None, true);
    add_param(&mut p, "content", ParamKind::Text, None, true);
    assert(param_views(p@) =~= fs_write_tool().parameters);
    make_tool(
        "fs_write",
        "Write (create or overwrite) a file with the given content. Parent directories are created automatically.",
        p,
    )
}

pub open spec fn fs_patch_tool() -> ToolView {
    ToolView {
        name: "fs_patch"@,
        description: "Replace the first occurrence of `old_text` with `new_text` in a file. Fails if old_text is not found."@,
        parameters: seq![
            param("path"@, KindView::Text, None, true),
            param("old_text"@, KindView::Text, Some("Exact text to find"@), true),
            param("new_text"@, KindView::Text, Some("Replacement text"@), true),
        ],
    }
}

fn make_fs_patch_tool() -> (r: ToolDef)
    ensures
        r@ == fs_patch_tool(),
{
    let mut p = no_params();
    add_param(&mut p, "path", ParamKind::Text, None, true);
    add_param(&mut p, "old_text", ParamKind::Text, Some("Exact text to find"), true);
    add_param(&mut p, "new_text", ParamKind::Text, Some("Replacement text"), true);
    assert(param_views(p@) =~= fs_patch_tool().parameters);
    make_tool(
        "fs_patch",
        "Replace the first occurrence of `old_text` with `new_text` in a file. Fails if old_text is not found.",
        p,
    )
}

pub open spec fn fs_mkdir_tool() -> ToolView {
    ToolView {
        name: "fs_mkdir"@,
        description: "Create a directory and all missing parent directories."@,
        parameters: seq![
            param("path"@, KindView::Text, None, true),
        ],
    }
}

fn make_fs_mkdir_tool() -> (r: ToolDef)
    ensures
        r@ == fs_mkdir_tool(),
{
    let mut p = no_params();
    add_param(&mut p, "path", ParamKind::Text, None, true);
    assert(param_views(p@) =~= fs_mkdir_tool().parameters);
    make_tool("fs_mkdir", "Create a directory and all missing parent directories.", p)
}

pub open spec fn fs_delete_tool() -> ToolView {
    ToolView {
        name: "fs_delete"@,
        description: "Delete a file or directory (recursive for directories)."@,
        parameters: seq![
            param("path"@, KindView::Text, None, true),
        ],
    }
}

fn make_fs_delete_tool() -> (r: ToolDef)
    ensures
        r@ == fs_delete_tool(),
{
    let mut p = no_params();
    add_param(&mut p, "path", ParamKind::Text, None, true);
    assert(param_views(p@) =~= fs_delete_tool().parameters);
    make_tool("fs_delete", "Delete a file or directory (recursive for directories).", p)
}

/// The tools for files.
pub open spec fn file_tools() -> Seq<ToolView> {
    seq![
        fs_read_tool(),
        fs_list_tool(),
        fs_write_tool(),
        fs_patch_tool(),
        fs_mkdir_tool(),
        fs_delete_tool(),
    ]
}

fn add_file_tools(tools: &mut Vec<ToolDef>)
    ensures
        tool_views(final(tools)@) == tool_views(old(tools)@) + file_tools(),
{
    add_tool(tools, make_fs_read_tool());
    add_tool(tools, make_fs_list_tool());
    add_tool(tools, make_fs_write_tool());
    add_tool(tools, make_fs_patch_tool());
    add_tool(tools, make_fs_mkdir_tool());
    add_tool(tools, make_fs_delete_tool());
    assert(tool_views(tools@) =~= tool_views(old(tools)@) + file_tools());
}

pub open spec fn shell_exec_tool() -> ToolView {
    ToolView {
        name: "shell_exec"@,
        description: "Run an arbitrary shell command via bash and return stdout + stderr. Use for building, testing, grepping, git, npm, cargo, etc. Output is capped; for commands that produce large output or run indefinitely, use shell_bg + shell_poll instead."@,
        parameters: seq![
            param(
                "command"@,
                KindView::Text,
                Some("Shell command to execute (passed to bash -c)"@),
                true,
            ),
            param(
                "cwd"@,
                KindView::Text,
                Some("Working directory override (optional, defaults to pane cwd)"@),
                false,
            ),
            param(
                "detail"@,
                KindView::Choice(seq!["brief"@, "default"@, "full"@]),
                Some(
                    "Output size: 'brief' for summaries, 'default' (standard cap), 'full' for deep inspection. Default: 'default'."@,
                ),
                false,
            ),
        ],
    }
}

fn make_shell_exec_tool() -> (r: ToolDef)
    ensures
        r@ == shell_exec_tool(),
{
    let mut p = no_params();
    add_param(
        &mut p,
        "command",
        ParamKind::Text,
        Some("Shell command to execute (passed to bash -c)"),
        true,
    );
    add_param(
        &mut p,
        "cwd",
        ParamKind::Text,
        Some("Working directory override (optional, defaults to pane cwd)"),
        false,
    );
    add_param(
        &mut p,
        "detail",
        choice3("brief", "default", "full"),
        Some(
            "Output size: 'brief' for summaries, 'default' (standard cap), 'full' for deep inspection. Default: 'default'.",
        ),
        false,
    );
    assert(param_views(p@) =~= shell_exec_tool().parameters);
    make_tool(
        "shell_exec",
        "Run an arbitrary shell command via bash and return stdout + stderr. Use for building, testing, grepping, git, npm, cargo, etc. Output is capped; for commands that produce large output or run indefinitely, use shell_bg + shell_poll instead.",
        p,
    )
}

pub open spec fn shell_bg_tool() -> ToolView {
    ToolView {
        name: "shell_bg"@,
        description: "Start a long-running shell command in the background and return its process id immediately. Use for commands that take minutes (builds, dev servers, watchers). Call shell_poll to check status and collect output."@,
        parameters: seq![
            param("command"@, KindView::Text, Some("Shell command to run in background"@), true),
            param("cwd"@, KindView::Text, Some("Working directory (optional)"@), false),
        ],
    }
}

fn make_shell_bg_tool() -> (r: ToolDef)
    ensures
        r@ == shell_bg_tool(),
{
    let mut p = no_params();
    add_param(&mut p, "command", ParamKind::Text, Some("Shell command to run in background"), true);
    add_param(&mut p, "cwd", ParamKind::Text, Some("Working directory (optional)"), false);
    assert(param_views(p@) =~= shell_bg_tool().parameters);
    make_tool(
        "shell_bg",
        "Start a long-running shell command in the background and return its process id immediately. Use for commands that take minutes (builds, dev servers, watchers). Call shell_poll to check status and collect output.",
        p,
    )
}

pub open spec fn shell_poll_tool() -> ToolView {
    ToolView {
        name: "shell_poll"@,
        description: "Check the status of a background process started with shell_bg. Returns accumulated stdout/stderr and whether the process has exited. Pass timeout_secs > 0 to wait up to that many seconds for it to finish."@,
        parameters: seq![
            param("pid"@, KindView::Integer, Some("Process id returned by shell_bg"@), true),
            param(
                "timeout_secs"@,
                KindView::Integer,
                Some("Seconds to wait for process exit (0 = non-blocking check)"@),
                false,
            ),
        ],
    }
}

fn make_shell_poll_tool() -> (r: ToolDef)
    ensures
        r@ == shell_poll_tool(),
{
    let mut p = no_params();
    add_param(&mut p, "pid", ParamKind::Integer, Some("Process id returned by shell_bg"), true);
    add_param(
        &mut p,
        "timeout_secs",
        ParamKind::Integer,
        Some("Seconds to wait for process exit (0 = non-blocking check)"),
        false,
    );
    assert(param_views(p@) =~= shell_poll_tool().parameters);
    make_tool(
        "shell_poll",
        "Check the status of a background process started with shell_bg. Returns accumulated stdout/stderr and whether the process has exited. Pass timeout_secs > 0 to wait up to that many seconds for it to finish.",
        p,
    )
}

pub open spec fn pwd_tool() -> ToolView {
    ToolView {
        name: "pwd"@,
        description: "Return the current working directory of the terminal pane."@,
        parameters: seq![
        ],
    }
}

fn make_pwd_tool() -> (r: ToolDef)
    ensures
        r@ == pwd_tool(),
{
    let mut p = no_params();
    assert(param_views(p@) =~= pwd_tool().parameters);
    make_tool("pwd", "Return the current working directory of the terminal pane.", p)
}

pub open spec fn web_fetch_tool() -> ToolView {
    ToolView {
        name: "web_fetch"@,
        description: "Fetch a URL and return its content as Markdown. Uses defuddle.md then r.jina.ai as free anonymous backends. Use for reading documentation, articles, or any public web page."@,
        parameters: seq![
            param(
                "url"@,
                KindView::Text,
                Some("Full URL to fetch (must start with http:// or https://)"@),
                true,
            ),
            param(
                "detail"@,
                KindView::Choice(seq!["brief"@, "default"@, "full"@]),
                Some(
                    "Output size. Default: 'default'. Use 'full' when exact source text is needed; it disables automatic summarization."@,
                ),
                false,
            ),
            param(
                "raw"@,
                KindView::Boolean,
                Some(
                    "Return fetched content verbatim and skip automatic summarization. Use for exact quotes, debugging, or source inspection."@,
                ),
                false,
            ),
        ],
    }
}

fn make_web_fetch_tool() -> (r: ToolDef)
    ensures
        r@ == web_fetch_tool(),
{
    let mut p = no_params();
    add_param(
        &mut p,
        "url",
        ParamKind::Text,
        Some("Full URL to fetch (must start with http:// or https://)"),
        true,
    );
    add_param(
        &mut p,
        "detail",
        choice3("brief", "default", "full"),
        Some(
            "Output size. Default: 'default'. Use 'full' when exact source text is needed; it disables automatic summarization.",
        ),
        false,
    );
    add_param(
        &mut p,
        "raw",
        ParamKind::Boolean,
        Some(
            "Return fetched content verbatim and skip automatic summarization. Use for exact quotes, debugging, or source inspection.",
        ),
        false,
    );
    assert(param_views(p@) =~= web_fetch_tool().parameters);
    make_tool(
        "web_fetch",
        "Fetch a URL and return its content as Markdown. Uses defuddle.md then r.jina.ai as free anonymous backends. Use for reading documentation, articles, or any public web page.",
        p,
    )
}

/// The tools for the shell and the web pages that need no provider.
pub open spec fn shell_tools() -> Seq<ToolView> {
    seq![shell_exec_tool(), shell_bg_tool(), shell_poll_tool(), pwd_tool(), web_fetch_tool()]
}

fn add_shell_tools(tools: &mut Vec<ToolDef>)
    ensures
        tool_views(final(tools)@) == tool_views(old(tools)@) + shell_tools(),
{
    add_tool(tools, make_shell_exec_tool());
    add_tool(tools, make_shell_bg_tool());
    add_tool(tools, make_shell_poll_tool());
    add_tool(tools, make_pwd_tool());
    add_tool(tools, make_web_fetch_tool());
    assert(tool_views(tools@) =~= tool_views(old(tools)@) + shell_tools());
}

pub open spec fn web_search_tool(provider: Seq<char>) -> ToolView {
    ToolView {
        name: "web_search"@,
        description: "Search the web using "@ + provider
            + " and return results with title, URL, snippet, and (where supported) a direct AI answer. Use for finding current information, documentation, or answering questions. Use kind='news' for recent events; kind='deep' (pipellm) for richer RAG results; freshness to limit by recency."@,
        parameters: seq![
            param("query"@, KindView::Text, Some("Search query"@), true),
            param(
                "kind"@,
                KindView::Choice(seq!["web"@, "news"@, "deep"@]),
                Some(
                    "'web' (default), 'news' (recent news), or 'deep' (pipellm: full RAG pipeline)"@,
                ),
                false,
            ),
            param(
                "freshness"@,
                KindView::Text,
                Some(
                    "Recency filter: 'pd' (24h), 'pw' (7d), 'pm' (31d), 'py' (1y). Brave also accepts custom ranges like '2024-01-01to2024-06-30'."@,
                ),
                false,
            ),
            param(
                "search_depth"@,
                KindView::Choice(seq!["basic"@, "advanced"@]),
                Some("Tavily only. 'advanced' performs deeper crawling for richer results."@),
                false,
            ),
        ],
    }
}

fn make_web_search_tool(provider: &str) -> (r: ToolDef)
    ensures
        r@ == web_search_tool(provider@),
{
    let mut p = no_params();
    add_param(&mut p, "query", ParamKind::Text, Some("Search query"), true);
    add_param(
        &mut p,
        "kind",
        choice3("web", "news", "deep"),
        Some("'web' (default), 'news' (recent news), or 'deep' (pipellm: full RAG pipeline)"),
        false,
    );
    add_param(
        &mut p,
        "freshness",
        ParamKind::Text,
        Some(
            "Recency filter: 'pd' (24h), 'pw' (7d), 'pm' (31d), 'py' (1y). Brave also accepts custom ranges like '2024-01-01to2024-06-30'.",
        ),
        false,
    );
    add_param(
        &mut p,
        "search_depth",
        choice2("basic", "advanced"),
        Some("Tavily only. 'advanced' performs deeper crawling for richer results."),
        false,
    );
    assert(param_views(p@) =~= web_search_tool(provider@).parameters);
    make_tool(
        "web_search",
        concat3(
            "Search the web using ",
            provider,
            " and return results with title, URL, snippet, and (where supported) a direct AI answer. Use for finding current information, documentation, or answering questions. Use kind='news' for recent events; kind='deep' (pipellm) for richer RAG results; freshness to limit by recency.",
        ).as_str(),
        p,
    )
}

pub open spec fn read_url_tool() -> ToolView {
    ToolView {
        name: "read_url"@,
        description: "Fetch a web page and return its clean text content, optimized for AI reading. Use after web_search to read the full content of a promising result. Handles JS-heavy pages better than web_fetch for supported providers."@,
        parameters: seq![
            param(
                "url"@,
                KindView::Text,
                Some("Full URL to read (must start with http:// or https://)"@),
                true,
            ),
            param(
                "detail"@,
                KindView::Choice(seq!["brief"@, "default"@, "full"@]),
                Some(
                    "Output size. Default: 'default'. Use 'full' when exact source text is needed; it disables automatic summarization."@,
                ),
                false,
            ),
            param(
                "raw"@,
                KindView::Boolean,
                Some(
                    "Return fetched content verbatim and skip automatic summarization. Use for exact quotes, debugging, or source inspection."@,
                ),
                false,
            ),
        ],
    }
}

fn make_read_url_tool() -> (r: ToolDef)
    ensures
        r@ == read_url_tool(),
{
    let mut p = no_params();
    add_param(
        &mut p,
        "url",
        ParamKind::Text,
        Some("Full URL to read (must start with http:// or https://)"),
        true,
    );
    add_param(
        &mut p,
        "detail",
        choice3("brief", "default", "full"),
        Some(
            "Output size. Default: 'default'. Use 'full' when exact source text is needed; it disables automatic summarization.",
        ),
        false,
    );
    add_param(
        &mut p,
        "raw",
        ParamKind::Boolean,
        Some(
            "Return fetched content verbatim and skip automatic summarization. Use for exact quotes, debugging, or source inspection.",
        ),
        false,
    );
    assert(param_views(p@) =~= read_url_tool().parameters);
    make_tool(
        "read_url",
        "Fetch a web page and return its clean text content, optimized for AI reading. Use after web_search to read the full content of a promising result. Handles JS-heavy pages better than web_fetch for supported providers.",
        p,
    )
}

/// The tools for web search, which need a provider.
pub open spec fn search_tools(provider: Seq<char>) -> Seq<ToolView> {
    seq![web_search_tool(provider), read_url_tool()]
}

fn add_search_tools(tools: &mut Vec<ToolDef>, provider: &str)
    ensures
        tool_views(final(tools)@) == tool_views(old(tools)@) + search_tools(provider@),
{
    add_tool(tools, make_web_search_tool(provider));
    add_tool(tools, make_read_url_tool());
    assert(tool_views(tools@) =~= tool_views(old(tools)@) + search_tools(provider@));
}

pub open spec fn project_summary_tool() -> ToolView {
    ToolView {
        name: "project_summary"@,
        description: "Scan a directory for project markers (Cargo.toml, package.json, go.mod, Makefile, .git, etc.) and return a brief summary: language, build system, key directories, entry points. Call this first on unfamiliar codebases."@,
        parameters: seq![
            param("path"@, KindView::Text, Some("Directory to scan (defaults to cwd)"@), false),
        ],
    }
}

fn make_project_summary_tool() -> (r: ToolDef)
    ensures
        r@ == project_summary_tool(),
{
    let mut p = no_params();
    add_param(&mut p, "path", ParamKind::Text, Some("Directory to scan (defaults to cwd)"), false);
    assert(param_views(p@) =~= project_summary_tool().parameters);
    make_tool(
        "project_summary",
        "Scan a directory for project markers (Cargo.toml, package.json, go.mod, Makefile, .git, etc.) and return a brief summary: language, build system, key directories, entry points. Call this first on unfamiliar codebases.",
        p,
    )
}

pub open spec fn file_tree_tool() -> ToolView {
    ToolView {
        name: "file_tree"@,
        description: "List the directory tree up to a given depth, skipping .git, node_modules, target, and other common noise directories. Useful for understanding project structure before searching."@,
        parameters: seq![
            param("path"@, KindView::Text, Some("Root directory (defaults to cwd)"@), false),
            param(
                "depth"@,
                KindView::Integer,
                Some("Maximum depth to recurse (default 3, max 6)"@),
                false,
            ),
        ],
    }
}

fn make_file_tree_tool() -> (r: ToolDef)
    ensures
        r@ == file_tree_tool(),
{
    let mut p = no_params();
    add_param(&mut p, "path", ParamKind::Text, Some("Root directory (defaults to cwd)"), false);
    add_param(
        &mut p,
        "depth",
        ParamKind::Integer,
        Some("Maximum depth to recurse (default 3, max 6)"),
        false,
    );
    assert(param_views(p@) =~= file_tree_tool().parameters);
    make_tool(
        "file_tree",
        "List the directory tree up to a given depth, skipping .git, node_modules, target, and other common noise directories. Useful for understanding project structure before searching.",
        p,
    )
}

pub open spec fn symbol_search_tool() -> ToolView {
    ToolView {
        name: "symbol_search"@,
        description: "Find symbol definitions (functions, types, traits, classes, methods) by name. More precise than grep_search for code navigation because it uses language-aware patterns to match definitions, not arbitrary occurrences."@,
        parameters: seq![
            param(
                "query"@,
                KindView::Text,
                Some("Symbol name or partial name to search for"@),
                true,
            ),
            param(
                "kind"@,
                KindView::Choice(seq!["function"@, "type"@, "class"@, "method"@, "all"@]),
                Some("Kind of symbol to find (default: all)"@),
                false,
            ),
            param(
                "path"@,
                KindView::Text,
                Some("Directory to search in (defaults to cwd)"@),
                false,
            ),
            param(
                "glob"@,
                KindView::Text,
                Some("File glob filter, e.g. '*.rs' or '*.{ts,tsx}'"@),
                false,
            ),
        ],
    }
}

fn make_symbol_search_tool() -> (r: ToolDef)
    ensures
        r@ == symbol_search_tool(),
{
    let mut p = no_params();
    add_param(
        &mut p,
        "query",
        ParamKind::Text,
        Some("Symbol name or partial name to search for"),
        true,
    );
    add_param(
        &mut p,
        "kind",
        choice5("function", "type", "class", "method", "all"),
        Some("Kind of symbol to find (default: all)"),
        false,
    );
    add_param(
        &mut p,
        "path",
        ParamKind::Text,
        Some("Directory to search in (defaults to cwd)"),
        false,
    );
    add_param(
        &mut p,
        "glob",
        ParamKind::Text,
        Some("File glob filter, e.g. '*.rs' or '*.{ts,tsx}'"),
        false,
    );
    assert(param_views(p@) =~= symbol_search_tool().parameters);
    make_tool(
        "symbol_search",
        "Find symbol definitions (functions, types, traits, classes, methods) by name. More precise than grep_search for code navigation because it uses language-aware patterns to match definitions, not arbitrary occurrences.",
        p,
    )
}

pub open spec fn grep_search_tool() -> ToolView {
    ToolView {
        name: "grep_search"@,
        description: "Recursively search for a regex pattern in files and return matching lines with context. Use for finding symbol definitions, usages, TODO comments, or any text pattern across the codebase. Faster and more precise than reading individual files."@,
        parameters: seq![
            param(
                "pattern"@,
                KindView::Text,
                Some("Regular expression pattern to search for"@),
                true,
            ),
            param(
                "path"@,
                KindView::Text,
                Some("Directory or file to search in (defaults to cwd)"@),
                false,
            ),
            param(
                "glob"@,
                KindView::Text,
                Some("File glob filter, e.g. '*.rs' or '*.{ts,tsx}' (optional)"@),
                false,
            ),
            param(
                "context_lines"@,
                KindView::Bounded(0, 100),
                Some("Lines of context before and after each match (default 2, max 100)"@),
                false,
            ),
            param(
                "case_insensitive"@,
                KindView::Boolean,
                Some("Case-insensitive matching (default false)"@),
                false,
            ),
            param(
                "max_results"@,
                KindView::Bounded(1, 1000),
                Some("Maximum number of matching lines to return (default 100, max 1000)"@),
                false,
            ),
            param(
                "detail"@,
                KindView::Choice(seq!["brief"@, "default"@, "full"@]),
                Some("Output size. Default: 'default'."@),
                false,
            ),
        ],
    }
}

fn make_grep_search_tool() -> (r: ToolDef)
    ensures
        r@ == grep_search_tool(),
{
    let mut p = no_params();
    add_param(
        &mut p,
        "pattern",
        ParamKind::Text,
        Some("Regular expression pattern to search for"),
        true,
    );
    add_param(
        &mut p,
        "path",
        ParamKind::Text,
        Some("Directory or file to search in (defaults to cwd)"),
        false,
    );
    add_param(
        &mut p,
        "glob",
        ParamKind::Text,
        Some("File glob filter, e.g. '*.rs' or '*.{ts,tsx}' (optional)"),
        false,
    );
    add_param(
        &mut p,
        "context_lines",
        ParamKind::Bounded(0, 100),
        Some("Lines of context before and after each match (default 2, max 100)"),
        false,
    );
    add_param(
        &mut p,
        "case_insensitive",
        ParamKind::Boolean,
        Some("Case-insensitive matching (default false)"),
        false,
    );
    add_param(
        &mut p,
        "max_results",
        ParamKind::Bounded(1, 1000),
        Some("Maximum number of matching lines to return (default 100, max 1000)"),
        false,
    );
    add_param(
        &mut p,
        "detail",
        choice3("brief", "default", "full"),
        Some("Output size. Default: 'default'."),
        false,
    );
    assert(param_views(p@) =~= grep_search_tool().parameters);
    make_tool(
        "grep_search",
        "Recursively search for a regex pattern in files and return matching lines with context. Use for finding symbol definitions, usages, TODO comments, or any text pattern across the codebase. Faster and more precise than reading individual files.",
        p,
    )
}

/// The tools for the project.
pub open spec fn project_tools() -> Seq<ToolView> {
    seq![project_summary_tool(), file_tree_tool(), symbol_search_tool(), grep_search_tool()]
}

fn add_project_tools(tools: &mut Vec<ToolDef>)
    ensures
        tool_views(final(tools)@) == tool_views(old(tools)@) + project_tools(),
{
    add_tool(tools, make_project_summary_tool());
    add_tool(tools, make_file_tree_tool());
    add_tool(tools, make_symbol_search_tool());
    add_tool(tools, make_grep_search_tool());
    assert(tool_views(tools@) =~= tool_views(old(tools)@) + project_tools());
}

pub open spec fn memory_read_tool() -> ToolView {
    ToolView {
        name: "memory_read"@,
        description: "Read the rolling memory file that stores persistent facts, preferences, and project context across AI chat sessions. Kaku updates this file automatically after each conversation; you do not need to write to it yourself."@,
        parameters: seq![
        ],
    }
}

fn make_memory_read_tool() -> (r: ToolDef)
    ensures
        r@ == memory_read_tool(),
{
    let mut p = no_params();
    assert(param_views(p@) =~= memory_read_tool().parameters);
    make_tool(
        "memory_read",
        "Read the rolling memory file that stores persistent facts, preferences, and project context across AI chat sessions. Kaku updates this file automatically after each conversation; you do not need to write to it yourself.",
        p,
    )
}

pub open spec fn soul_read_tool() -> ToolView {
    ToolView {
        name: "soul_read"@,
        description: "Read one of the user's soul identity files. These are stable, user-authored documents that describe who the user is (soul), their preferred style (style), and how they work (skill). Call this when you need to recall a specific identity detail not already present in the system prompt."@,
        parameters: seq![
            param(
                "file"@,
                KindView::Choice(seq!["soul"@, "style"@, "skill"@, "memory"@]),
                Some("Which soul file to read. Omit to read all four."@),
                false,
            ),
        ],
    }
}

fn make_soul_read_tool() -> (r: ToolDef)
    ensures
        r@ == soul_read_tool(),
{
    let mut p = no_params();
    add_param(
        &mut p,
        "file",
        choice4("soul", "style", "skill", "memory"),
        Some("Which soul file to read. Omit to read all four."),
        false,
    );
    assert(param_views(p@) =~= soul_read_tool().parameters);
    make_tool(
        "soul_read",
        "Read one of the user's soul identity files. These are stable, user-authored documents that describe who the user is (soul), their preferred style (style), and how they work (skill). Call this when you need to recall a specific identity detail not already present in the system prompt.",
        p,
    )
}

pub open spec fn http_request_tool() -> ToolView {
    ToolView {
        name: "http_request"@,
        description: "Make an HTTP request (GET, POST, PUT, PATCH, DELETE) and return the response status, headers, and body. Use for testing APIs, fetching JSON endpoints, or any HTTP call that requires a specific method or request body. For web pages, prefer web_fetch instead."@,
        parameters: seq![
            param(
                "method"@,
                KindView::Choice(seq!["GET"@, "POST"@, "PUT"@, "PATCH"@, "DELETE"@]),
                Some("HTTP method"@),
                true,
            ),
            param(
                "url"@,
                KindView::Text,
                Some("Full URL (must start with http:// or https://)"@),
                true,
            ),
            param(
                "headers"@,
                KindView::TextMap,
                Some("Optional extra request headers as key-value pairs"@),
                false,
            ),
            param(
                "body"@,
                KindView::Text,
                Some(
                    "Request body (for POST/PUT/PATCH). If it is valid JSON, Content-Type is set to application/json automatically."@,
                ),
                false,
            ),
            param(
                "query"@,
                KindView::TextMap,
                Some("Optional URL query parameters as key-value pairs"@),
                false,
            ),
        ],
    }
}

fn make_http_request_tool() -> (r: ToolDef)
    ensures
        r@ == http_request_tool(),
{
    let mut p = no_params();
    add_param(
        &mut p,
        "method",
        choice5("GET", "POST", "PUT", "PATCH", "DELETE"),
        Some("HTTP method"),
        true,
    );
    add_param(
        &mut p,
        "url",
        ParamKind::Text,
        Some("Full URL (must start with http:// or https://)"),
        true,
    );
    add_param(
        &mut p,
        "headers",
        ParamKind::TextMap,
        Some("Optional extra request headers as key-value pairs"),
        false,
    );
    add_param(
        &mut p,
        "body",
        ParamKind::Text,
        Some(
            "Request body (for POST/PUT/PATCH). If it is valid JSON, Content-Type is set to application/json automatically.",
        ),
        false,
    );
    add_param(
        &mut p,
        "query",
        ParamKind::TextMap,
        Some("Optional URL query parameters as key-value pairs"),
        false,
    );
    assert(param_views(p@) =~= http_request_tool().parameters);
    make_tool(
        "http_request",
        "Make an HTTP request (GET, POST, PUT, PATCH, DELETE) and return the response status, headers, and body. Use for testing APIs, fetching JSON endpoints, or any HTTP call that requires a specific method or request body. For web pages, prefer web_fetch instead.",
        p,
    )
}

/// The tools for memories, identity files and plain HTTP.
pub open spec fn memory_tools() -> Seq<ToolView> {
    seq![memory_read_tool(), soul_read_tool(), http_request_tool()]
}

fn add_memory_tools(tools: &mut Vec<ToolDef>)
    ensures
        tool_views(final(tools)@) == tool_views(old(tools)@) + memory_tools(),
{
    add_tool(tools, make_memory_read_tool());
    add_tool(tools, make_soul_read_tool());
    add_tool(tools, make_http_request_tool());
    assert(tool_views(tools@) =~= tool_views(old(tools)@) + memory_tools());
}

/// The name under which the search tools announce their provider.
pub open spec fn search_provider_name(config: AssistantConfig) -> Seq<char> {
    match config.web_search_provider {
        Some(p) => p@,
        None => "search"@,
    }
}

/// The tools that a configuration exposes.
pub open spec fn offered_tools(config: AssistantConfig) -> Seq<ToolView> {
    file_tools() + shell_tools() + if config.web_search_ready {
        search_tools(search_provider_name(config))
    } else {
        seq![]
    } + project_tools() + memory_tools()
}

/// All tools exposed to the model, filtered by the active configuration.
pub fn all_tools(config: &AssistantConfig) -> (r: Vec<ToolDef>)
    ensures
        tool_views(r@) == offered_tools(*config),
{
    let mut tools: Vec<ToolDef> = Vec::new();
    assert(tool_views(tools@) =~= Seq::empty());
    add_file_tools(&mut tools);
    add_shell_tools(&mut tools);
    if config.web_search_ready {
        let provider = match &config.web_search_provider {
            Some(p) => p.as_str(),
            None => "search",
        };
        add_search_tools(&mut tools, provider);
    }
    add_project_tools(&mut tools);
    add_memory_tools(&mut tools);
    assert(tool_views(tools@) =~= offered_tools(*config));
    tools
}

// ---------------------------------------------------------------------------
// The schema
// ---------------------------------------------------------------------------

pub open spec fn number_view(n: u64) -> JsonView {
    JsonView::Number { unsigned: Some(n), text: decimal(n as nat) }
}

fn json_number(n: u64) -> (r: JsonValue)
    ensures
        r@ == number_view(n),
{
    JsonValue::Number(JsonNumber { unsigned: Some(n), text: decimal_of(n as u128) })
}

pub open spec fn text_values(words: Seq<Seq<char>>) -> Seq<JsonView> {
    words.map_values(|w: Seq<char>| JsonView::Text(w))
}

fn json_strings(words: &Vec<String>) -> (r: JsonValue)
    ensures
        r@ == JsonView::Array(text_values(views(words@))),
{
    let mut items = no_values();
    let mut i: usize = 0;
    let ghost all = text_values(views(words@));
    assert(json_views(items@) =~= all.take(0));
    while i < words.len()
        invariant
            i <= words.len(),
            all == text_values(views(words@)),
            json_views(items@) == all.take(i as int),
        decreases words.len() - i,
    {
        add_value(&mut items, json_string(words[i].as_str()));
        i += 1;
        assert(json_views(items@) =~= all.take(i as int));
    }
    assert(all.take(i as int) =~= all);
    JsonValue::Array(items)
}

pub open spec fn type_field(name: Seq<char>) -> (Seq<char>, JsonView) {
    ("type"@, JsonView::Text(name))
}

/// The fields of a schema that follow from the kind alone.
pub open spec fn kind_fields(kind: KindView) -> Seq<(Seq<char>, JsonView)> {
    match kind {
        KindView::Text => seq![type_field("string"@)],
        KindView::Choice(words) => seq![
            type_field("string"@),
            ("enum"@, JsonView::Array(text_values(words))),
        ],
        KindView::Integer => seq![type_field("integer"@)],
        KindView::Bounded(low, high) => seq![
            type_field("integer"@),
            ("minimum"@, number_view(low)),
            ("maximum"@, number_view(high)),
        ],
        KindView::Boolean => seq![type_field("boolean"@)],
        KindView::TextMap => seq![
            type_field("object"@),
            ("additionalProperties"@, JsonView::Object(seq![type_field("string"@)])),
        ],
    }
}

/// The schema of one parameter.
pub open spec fn param_schema(p: ParamView) -> JsonView {
    let fields = kind_fields(p.kind);
    JsonView::Object(
        match p.description {
            Some(d) => fields.push(("description"@, JsonView::Text(d))),
            None => fields,
        },
    )
}

fn make_param_schema(p: &ToolParameter) -> (r: JsonValue)
    ensures
        r@ == param_schema(p@),
{
    let mut fields = no_fields();
    match &p.kind {
        ParamKind::Text => {
            add_field(&mut fields, "type", json_string("string"));
        },
        ParamKind::Choice(words) => {
            add_field(&mut fields, "type", json_string("string"));
            add_field(&mut fields, "enum", json_strings(words));
        },
        ParamKind::Integer => {
            add_field(&mut fields, "type", json_string("integer"));
        },
        ParamKind::Bounded(low, high) => {
            add_field(&mut fields, "type", json_string("integer"));
            add_field(&mut fields, "minimum", json_number(*low));
            add_field(&mut fields, "maximum", json_number(*high));
        },
        ParamKind::Boolean => {
            add_field(&mut fields, "type", json_string("boolean"));
        },
        ParamKind::TextMap => {
            let mut inner = no_fields();
            add_field(&mut inner, "type", json_string("string"));
            add_field(&mut fields, "type", json_string("object"));
            add_field(&mut fields, "additionalProperties", JsonValue::Object(inner));
        },
    }
    assert(field_views(fields@) =~= kind_fields(p@.kind));
    if let Some(d) = &p.description {
        add_field(&mut fields, "description", json_string(d.as_str()));
    }
    JsonValue::Object(fields)
}

pub open spec fn property_fields(params: Seq<ParamView>) -> Seq<(Seq<char>, JsonView)> {
    params.map_values(|p: ParamView| (p.name, param_schema(p)))
}

/// The names of the required parameters, in order.
pub open spec fn required_names(params: Seq<ParamView>) -> Seq<JsonView>
    decreases params.len(),
{
    if params.len() == 0 {
        seq![]
    } else {
        let before = required_names(params.drop_last());
        if params.last().required {
            before.push(JsonView::Text(params.last().name))
        } else {
            before
        }
    }
}

/// The schema of the parameters of a tool.
pub open spec fn parameter_schema(params: Seq<ParamView>) -> JsonView {
    JsonView::Object(
        seq![
            type_field("object"@),
            ("properties"@, JsonView::Object(property_fields(params))),
            ("required"@, JsonView::Array(required_names(params))),
        ],
    )
}

pub open spec fn function_schema(tool: ToolView) -> JsonView {
    JsonView::Object(
        seq![
            ("name"@, JsonView::Text(tool.name)),
            ("description"@, JsonView::Text(tool.description)),
            ("parameters"@, parameter_schema(tool.parameters)),
        ],
    )
}

/// The JSON object that describes a tool to the API.
pub open spec fn tool_schema(tool: ToolView) -> JsonView {
    JsonView::Object(seq![type_field("function"@), ("function"@, function_schema(tool))])
}

/// Serialize a ToolDef into the JSON object expected by the OpenAI API.
pub fn to_api_schema(tool: &ToolDef) -> (r: JsonValue)
    ensures
        r@ == tool_schema(tool@),
{
    let ghost all = param_views(tool.parameters@);
    let mut properties = no_fields();
    let mut required = no_values();
    let mut i: usize = 0;
    assert(field_views(properties@) =~= property_fields(all).take(0));
    assert(all.take(0) =~= Seq::empty());
    while i < tool.parameters.len()
        invariant
            i <= tool.parameters.len(),
            all == param_views(tool.parameters@),
            field_views(properties@) == property_fields(all).take(i as int),
            json_views(required@) == required_names(all.take(i as int)),
        decreases tool.parameters.len() - i,
    {
        let p = &tool.parameters[i];
        proof {
            assert(all.take(i + 1).drop_last() =~= all.take(i as int));
            assert(all.take(i + 1).last() == p@);
        }
        add_field(&mut properties, p.name.as_str(), make_param_schema(p));
        if p.required {
            add_value(&mut required, json_string(p.name.as_str()));
        }
        i += 1;
        assert(field_views(properties@) =~= property_fields(all).take(i as int));
    }
    assert(property_fields(all).take(i as int) =~= property_fields(all));
    assert(all.take(i as int) =~= all);
    let mut parameters = no_fields();
    add_field(&mut parameters, "type", json_string("object"));
    add_field(&mut parameters, "properties", JsonValue::Object(properties));
    add_field(&mut parameters, "required", JsonValue::Array(required));
    assert(field_views(parameters@) =~= parameter_schema(all)->Object_0);
    let mut function = no_fields();
    add_field(&mut function, "name", json_string(tool.name.as_str()));
    add_field(&mut function, "description", json_string(tool.description.as_str()));
    add_field(&mut function, "parameters", JsonValue::Object(parameters));
    assert(field_views(function@) =~= function_schema(tool@)->Object_0);
    let mut top = no_fields();
    add_field(&mut top, "type", json_string("function"));
    add_field(&mut top, "function", JsonValue::Object(function));
    assert(field_views(top@) =~= tool_schema(tool@)->Object_0);
    JsonValue::Object(top)
}

// ---------------------------------------------------------------------------
// Budgets
// ---------------------------------------------------------------------------

/// Fallback output cap for tools not matched in `budget_for`.
pub const DEFAULT_RESULT_BYTES: usize = 8_000;

/// The standard and the largest output of a tool, in bytes.
pub open spec fn byte_tiers(tool: Seq<char>) -> (int, int) {
    if tool == "fs_list"@ || tool == "pwd"@ || tool == "memory_read"@ || tool == "soul_read"@
        || tool == "project_summary"@ {
        (2_000, 4_000)
    } else if tool == "fs_read"@ || tool == "grep_search"@ || tool == "symbol_search"@ {
        (8_000, 16_000)
    } else if tool == "file_tree"@ {
        (4_000, 8_000)
    } else if tool == "shell_exec"@ || tool == "shell_poll"@ {
        (12_000, 24_000)
    } else if tool == "web_fetch"@ || tool == "read_url"@ {
        (10_000, 20_000)
    } else if tool == "shell_bg"@ {
        (8_000, 8_000)
    } else {
        (DEFAULT_RESULT_BYTES as int, DEFAULT_RESULT_BYTES as int)
    }
}

/// The output budget of a tool at a level of detail.
pub open spec fn budget(tool: Seq<char>, detail: Seq<char>) -> int {
    if detail == "brief"@ {
        byte_tiers(tool).0 / 2
    } else if detail == "full"@ {
        byte_tiers(tool).1
    } else {
        byte_tiers(tool).0
    }
}

/// Per-tool byte budgets for tool-call results.
/// `detail` maps to the budget tier: "brief" / "default" / "full".
pub fn budget_for(tool: &str, detail: &str) -> (r: usize)
    ensures
        r == budget(tool@, detail@),
{
    let (default_bytes, max_bytes): (usize, usize) = if same(tool, "fs_list") || same(tool, "pwd")
        || same(tool, "memory_read") || same(tool, "soul_read") || same(tool, "project_summary") {
        (2_000, 4_000)
    } else if same(tool, "fs_read") || same(tool, "grep_search") || same(tool, "symbol_search") {
        (8_000, 16_000)
    } else if same(tool, "file_tree") {
        (4_000, 8_000)
    } else if same(tool, "shell_exec") || same(tool, "shell_poll") {
        (12_000, 24_000)
    } else if same(tool, "web_fetch") || same(tool, "read_url") {
        (10_000, 20_000)
    } else if same(tool, "shell_bg") {
        (8_000, 8_000)
    } else {
        (DEFAULT_RESULT_BYTES, DEFAULT_RESULT_BYTES)
    };
    if same(detail, "brief") {
        default_bytes / 2
    } else if same(detail, "full") {
        max_bytes
    } else {
        default_bytes
    }
}

/// A brief result is never larger than the standard one, nor that larger than
/// a full one, and every budget leaves room for something.
pub proof fn budgets_grow_with_detail(tool: Seq<char>, other: Seq<char>)
    requires
        other != "brief"@,
        other != "full"@,
    ensures
        0 < budget(tool, "brief"@) <= budget(tool, other) <= budget(tool, "full"@),
{
    reveal_strlit("brief");
    reveal_strlit("full");
    assert("brief"@.len() == 5 && "full"@.len() == 4);
}

// ---------------------------------------------------------------------------
// Laws
// ---------------------------------------------------------------------------

/// The names of a list of tools.
pub open spec fn tool_names(tools: Seq<ToolView>) -> Seq<Seq<char>> {
    tools.map_values(|t: ToolView| t.name)
}

/// The place of a tool's name among all of them, by its length and a character
/// that tells it from the others of that length.
spec fn name_place(name: Seq<char>) -> int {
    if name.len() == 3 {
        9
    } else if name.len() == 7 {
        if name[3] == 'r' {
            0
        } else {
            1
        }
    } else if name.len() == 8 {
        if name[3] == 'w' {
            2
        } else if name[3] == 'p' {
            3
        } else if name[3] == 'm' {
            4
        } else if name[3] == 'l' {
            7
        } else {
            12
        }
    } else if name.len() == 9 {
        if name[1] == 's' {
            5
        } else if name[1] == 'e' {
            10
        } else if name[1] == 'i' {
            14
        } else {
            18
        }
    } else if name.len() == 10 {
        if name[6] == 'e' {
            6
        } else if name[6] == 'p' {
            8
        } else {
            11
        }
    } else if name.len() == 11 {
        if name[0] == 'g' {
            16
        } else {
            17
        }
    } else if name.len() == 12 {
        19
    } else if name.len() == 13 {
        15
    } else if name.len() == 15 {
        13
    } else {
        -1
    }
}

/// No two tools that are offered share a name, so that the model's choice is
/// never ambiguous.
pub proof fn tool_names_are_distinct(config: AssistantConfig)
    ensures
        tool_names(offered_tools(config)).no_duplicates(),
{
    reveal_strlit("fs_read");
    assert("fs_read"@.len() == 7 && "fs_read"@[3] == 'r');
    reveal_strlit("fs_list");
    assert("fs_list"@.len() == 7 && "fs_list"@[3] == 'l');
    reveal_strlit("fs_write");
    assert("fs_write"@.len() == 8 && "fs_write"@[3] == 'w');
    reveal_strlit("fs_patch");
    assert("fs_patch"@.len() == 8 && "fs_patch"@[3] == 'p');
    reveal_strlit("fs_mkdir");
    assert("fs_mkdir"@.len() == 8 && "fs_mkdir"@[3] == 'm');
    reveal_strlit("fs_delete");
    assert("fs_delete"@.len() == 9 && "fs_delete"@[1] == 's');
    reveal_strlit("shell_exec");
    assert("shell_exec"@.len() == 10 && "shell_exec"@[6] == 'e');
    reveal_strlit("shell_bg");
    assert("shell_bg"@.len() == 8 && "shell_bg"@[3] == 'l');
    reveal_strlit("shell_poll");
    assert("shell_poll"@.len() == 10 && "shell_poll"@[6] == 'p');
    reveal_strlit("pwd");
    assert("pwd"@.len() == 3);
    reveal_strlit("web_fetch");
    assert("web_fetch"@.len() == 9 && "web_fetch"@[1] == 'e');
    reveal_strlit("web_search");
    assert("web_search"@.len() == 10 && "web_search"@[6] == 'a');
    reveal_strlit("read_url");
    assert("read_url"@.len() == 8 && "read_url"@[3] == 'd');
    reveal_strlit("project_summary");
    assert("project_summary"@.len() == 15);
    reveal_strlit("file_tree");
    assert("file_tree"@.len() == 9 && "file_tree"@[1] == 'i');
    reveal_strlit("symbol_search");
    assert("symbol_search"@.len() == 13);
    reveal_strlit("grep_search");
    assert("grep_search"@.len() == 11 && "grep_search"@[0] == 'g');
    reveal_strlit("memory_read");
    assert("memory_read"@.len() == 11 && "memory_read"@[0] == 'm');
    reveal_strlit("soul_read");
    assert("soul_read"@.len() == 9 && "soul_read"@[1] == 'o');
    reveal_strlit("http_request");
    assert("http_request"@.len() == 12);

    let tools = offered_tools(config);
    let names = tool_names(tools);
    let ready = config.web_search_ready;
    let search = if ready {
        search_tools(search_provider_name(config))
    } else {
        seq![]
    };
    let shift: int = if ready {
        0
    } else {
        2
    };
    assert forall|i: int| 0 <= i < names.len() implies name_place(#[trigger] names[i]) == (if i < 11 {
        i
    } else {
        i + shift
    }) by {
        if i < 6 {
            assert(tools[i] == file_tools()[i]);
        } else if i < 11 {
            assert(tools[i] == shell_tools()[i - 6]);
        } else if i + shift < 13 {
            assert(tools[i] == search[i - 11]);
        } else if i + shift < 17 {
            assert(tools[i] == project_tools()[i + shift - 13]);
        } else {
            assert(tools[i] == memory_tools()[i + shift - 17]);
        }
    }
    assert forall|i: int, j: int|
        0 <= i < names.len() && 0 <= j < names.len() && i != j implies names[i] != names[j] by {
        assert(name_place(names[i]) != name_place(names[j]));
    }
}

/// The search tools are offered exactly where a provider is set up.
pub proof fn search_tools_need_a_provider(config: AssistantConfig)
    ensures
        tool_names(offered_tools(config)).contains("web_search"@) == config.web_search_ready,
        tool_names(offered_tools(config)).contains("read_url"@) == config.web_search_ready,
{
    reveal_strlit("fs_read");
    assert("fs_read"@.len() == 7 && "fs_read"@[0] == 'f');
    reveal_strlit("fs_list");
    assert("fs_list"@.len() == 7 && "fs_list"@[0] == 'f');
    reveal_strlit("fs_write");
    assert("fs_write"@.len() == 8 && "fs_write"@[0] == 'f');
    reveal_strlit("fs_patch");
    assert("fs_patch"@.len() == 8 && "fs_patch"@[0] == 'f');
    reveal_strlit("fs_mkdir");
    assert("fs_mkdir"@.len() == 8 && "fs_mkdir"@[0] == 'f');
    reveal_strlit("fs_delete");
    assert("fs_delete"@.len() == 9 && "fs_delete"@[0] == 'f');
    reveal_strlit("shell_exec");
    assert("shell_exec"@.len() == 10 && "shell_exec"@[0] == 's');
    reveal_strlit("shell_bg");
    assert("shell_bg"@.len() == 8 && "shell_bg"@[0] == 's');
    reveal_strlit("shell_poll");
    assert("shell_poll"@.len() == 10 && "shell_poll"@[0] == 's');
    reveal_strlit("pwd");
    assert("pwd"@.len() == 3 && "pwd"@[0] == 'p');
    reveal_strlit("web_fetch");
    assert("web_fetch"@.len() == 9 && "web_fetch"@[0] == 'w');
    reveal_strlit("web_search");
    assert("web_search"@.len() == 10 && "web_search"@[0] == 'w');
    reveal_strlit("read_url");
    assert("read_url"@.len() == 8 && "read_url"@[0] == 'r');
    reveal_strlit("project_summary");
    assert("project_summary"@.len() == 15 && "project_summary"@[0] == 'p');
    reveal_strlit("file_tree");
    assert("file_tree"@.len() == 9 && "file_tree"@[0] == 'f');
    reveal_strlit("symbol_search");
    assert("symbol_search"@.len() == 13 && "symbol_search"@[0] == 's');
    reveal_strlit("grep_search");
    assert("grep_search"@.len() == 11 && "grep_search"@[0] == 'g');
    reveal_strlit("memory_read");
    assert("memory_read"@.len() == 11 && "memory_read"@[0] == 'm');
    reveal_strlit("soul_read");
    assert("soul_read"@.len() == 9 && "soul_read"@[0] == 's');
    reveal_strlit("http_request");
    assert("http_request"@.len() == 12 && "http_request"@[0] == 'h');

    let tools = offered_tools(config);
    let names = tool_names(tools);
    let fixed = file_tools() + shell_tools();
    if config.web_search_ready {
        let at = fixed.len() as int;
        assert(tools[at] == web_search_tool(search_provider_name(config)));
        assert(tools[at + 1] == read_url_tool());
        assert(names[at] == "web_search"@);
        assert(names[at + 1] == "read_url"@);
    } else {
        let rest = fixed + seq![] + project_tools() + memory_tools();
        assert(tools =~= rest);
        assert forall|i: int| 0 <= i < names.len() implies #[trigger] names[i] != "web_search"@
            && names[i] != "read_url"@ by {
            let n = names[i];
            if i < 6 {
                assert(tools[i] == file_tools()[i]);
            } else if i < 11 {
                assert(tools[i] == shell_tools()[i - 6]);
            } else if i < 15 {
                assert(tools[i] == project_tools()[i - 11]);
            } else {
                assert(tools[i] == memory_tools()[i - 15]);
            }
        }
    }
}

} // verus!
