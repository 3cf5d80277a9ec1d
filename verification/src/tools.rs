//! The tool dispatcher: what a tool call by name and arguments asks for.
use crate::json::{
    JsonValue, JsonView, bool_of, field_of, opt_str, text_of, unsigned_of,
};
use crate::paths::{optional_path_arg, path_arg_or};
use crate::registry::{
    AssistantConfig, budget, budget_for, file_tools, memory_tools, offered_tools, project_tools,
    search_provider_name, search_tools, shell_tools,
};
use crate::shell::{
    ShellError, ShellErrorView, ShellRequest, plan_poll, plan_shell, poll_request, shell_error_text,
    shell_request,
};
use crate::text::{clone_opt, concat2, opt_view, same};
use crate::web::{http_url, is_http_url, should_return_raw_fetch};
use crate::web_search::{
    SearchError, SearchErrorView, SearchView, WebSearchRequest, plan_web_search, search_error_text,
    search_request,
};
use vstd::prelude::*;
use vstd::string::*;

verus! {

#[derive(Clone, Copy, Debug, PartialEq, Eq, Structural)]
pub enum FileTool {
    Read,
    List,
    Write,
    Patch,
    Mkdir,
    Delete,
}

/// What a tool call asks for, with its arguments read, defaulted and clamped.
/// Paths are as they were given: they still have to pass the path guards.
#[derive(Debug)]
pub enum ToolCall {
    File(FileTool),
    ShellExec(ShellRequest),
    ShellBackground(ShellRequest),
    ShellPoll { pid: u32, timeout_secs: u64 },
    Pwd,
    /// Fetches a page, by a script where one is configured.
    WebFetch { url: String, script: Option<String>, raw: bool },
    WebSearch(WebSearchRequest),
    ReadUrl { url: String, provider: String, api_key: String, raw: bool },
    ProjectSummary { path: String },
    FileTree { path: String, depth: u64 },
    SymbolSearch { query: String, path: String, kind: String, glob: Option<String> },
    GrepSearch {
        pattern: String,
        path: String,
        glob: Option<String>,
        context_lines: u64,
        case_insensitive: bool,
        max_results: u64,
    },
    MemoryRead,
    SoulRead { file: String },
    HttpRequest { method: String, url: String },
}

#[allow(inconsistent_fields)]
pub enum CallView {
    File(FileTool),
    ShellExec(Seq<char>, Seq<char>),
    ShellBackground(Seq<char>, Seq<char>),
    ShellPoll { pid: u32, timeout_secs: u64 },
    Pwd,
    WebFetch { url: Seq<char>, script: Option<Seq<char>>, raw: bool },
    WebSearch(SearchView),
    ReadUrl { url: Seq<char>, provider: Seq<char>, api_key: Seq<char>, raw: bool },
    ProjectSummary { path: Seq<char> },
    FileTree { path: Seq<char>, depth: u64 },
    SymbolSearch { query: Seq<char>, path: Seq<char>, kind: Seq<char>, glob: Option<Seq<char>> },
    GrepSearch {
        pattern: Seq<char>,
        path: Seq<char>,
        glob: Option<Seq<char>>,
        context_lines: u64,
        case_insensitive: bool,
        max_results: u64,
    },
    MemoryRead,
    SoulRead { file: Seq<char> },
    HttpRequest { method: Seq<char>, url: Seq<char> },
}

impl View for ToolCall {
    type V = CallView;

    open spec fn view(&self) -> CallView {
        match *self {
            ToolCall::File(t) => CallView::File(t),
            ToolCall::ShellExec(s) => CallView::ShellExec(s.command@, s.cwd@),
            ToolCall::ShellBackground(s) => CallView::ShellBackground(s.command@, s.cwd@),
            ToolCall::ShellPoll { pid, timeout_secs } => CallView::ShellPoll { pid, timeout_secs },
            ToolCall::Pwd => CallView::Pwd,
            ToolCall::WebFetch { url, script, raw } => CallView::WebFetch {
                url: url@,
                script: opt_view(script),
                raw,
            },
            ToolCall::WebSearch(s) => CallView::WebSearch(s@),
            ToolCall::ReadUrl { url, provider, api_key, raw } => CallView::ReadUrl {
                url: url@,
                provider: provider@,
                api_key: api_key@,
                raw,
            },
            ToolCall::ProjectSummary { path } => CallView::ProjectSummary { path: path@ },
            ToolCall::FileTree { path, depth } => CallView::FileTree { path: path@, depth },
            ToolCall::SymbolSearch { query, path, kind, glob } => CallView::SymbolSearch {
                query: query@,
                path: path@,
                kind: kind@,
                glob: opt_view(glob),
            },
            ToolCall::GrepSearch {
                pattern,
                path,
                glob,
                context_lines,
                case_insensitive,
                max_results,
            } => CallView::GrepSearch {
                pattern: pattern@,
                path: path@,
                glob: opt_view(glob),
                context_lines,
                case_insensitive,
                max_results,
            },
            ToolCall::MemoryRead => CallView::MemoryRead,
            ToolCall::SoulRead { file } => CallView::SoulRead { file: file@ },
            ToolCall::HttpRequest { method, url } => CallView::HttpRequest {
                method: method@,
                url: url@,
            },
        }
    }
}

/// Why a tool call is refused before anything is done.
#[derive(Debug)]
pub enum ToolError {
    UnknownTool(String),
    MissingUrl,
    UnsupportedUrl,
    MissingQuery,
    MissingPattern,
    MissingMethod,
    Shell(ShellError),
    Search(SearchError),
}

pub enum ToolErrorView {
    UnknownTool(Seq<char>),
    MissingUrl,
    UnsupportedUrl,
    MissingQuery,
    MissingPattern,
    MissingMethod,
    Shell(ShellErrorView),
    Search(SearchErrorView),
}

impl View for ToolError {
    type V = ToolErrorView;

    open spec fn view(&self) -> ToolErrorView {
        match *self {
            ToolError::UnknownTool(n) => ToolErrorView::UnknownTool(n@),
            ToolError::MissingUrl => ToolErrorView::MissingUrl,
            ToolError::UnsupportedUrl => ToolErrorView::UnsupportedUrl,
            ToolError::MissingQuery => ToolErrorView::MissingQuery,
            ToolError::MissingPattern => ToolErrorView::MissingPattern,
            ToolError::MissingMethod => ToolErrorView::MissingMethod,
            ToolError::Shell(e) => ToolErrorView::Shell(e@),
            ToolError::Search(e) => ToolErrorView::Search(e@),
        }
    }
}

pub open spec fn tool_error_text(e: ToolErrorView) -> Seq<char> {
    match e {
        ToolErrorView::UnknownTool(n) => "unknown tool: "@ + n,
        ToolErrorView::MissingUrl => "missing url"@,
        ToolErrorView::UnsupportedUrl => "url must start with http:// or https://"@,
        ToolErrorView::MissingQuery => "missing query"@,
        ToolErrorView::MissingPattern => "missing pattern"@,
        ToolErrorView::MissingMethod => "missing method"@,
        ToolErrorView::Shell(s) => shell_error_text(s),
        ToolErrorView::Search(s) => search_error_text(s),
    }
}

impl ToolError {
    pub fn message(&self) -> (r: String)
        ensures
            r@ == tool_error_text(self@),
    {
        match self {
            ToolError::UnknownTool(n) => concat2("unknown tool: ", n.as_str()),
            ToolError::MissingUrl => "missing url".to_owned(),
            ToolError::UnsupportedUrl => "url must start with http:// or https://".to_owned(),
            ToolError::MissingQuery => "missing query".to_owned(),
            ToolError::MissingPattern => "missing pattern".to_owned(),
            ToolError::MissingMethod => "missing method".to_owned(),
            ToolError::Shell(s) => s.message(),
            ToolError::Search(s) => s.message(),
        }
    }
}

pub open spec fn clamped(value: Option<u64>, default: u64, max: u64) -> u64 {
    let n = match value {
        Some(v) => v,
        None => default,
    };
    if n <= max {
        n
    } else {
        max
    }
}

fn clamp(value: Option<u64>, default: u64, max: u64) -> (r: u64)
    ensures
        r == clamped(value, default, max),
{
    let n: u64 = match value {
        Some(v) => v,
        None => default,
    };
    if n <= max {
        n
    } else {
        max
    }
}

pub open spec fn word_or(value: Option<Seq<char>>, default: Seq<char>) -> Seq<char> {
    match value {
        Some(v) => v,
        None => default,
    }
}

pub open spec fn flag_or(value: Option<bool>) -> bool {
    value matches Some(b) && b
}

/// The level of detail that a call asks for.
pub open spec fn detail_of(args: JsonView) -> Seq<char> {
    word_or(text_of(field_of(args, "detail"@)), "default"@)
}

/// Whether a fetched page is returned verbatim.
pub open spec fn wants_raw(args: JsonView) -> bool {
    flag_or(bool_of(field_of(args, "raw"@))) || detail_of(args) == "full"@
}

pub open spec fn file_tool_of(name: Seq<char>) -> Option<FileTool> {
    if name == "fs_read"@ {
        Some(FileTool::Read)
    } else if name == "fs_list"@ {
        Some(FileTool::List)
    } else if name == "fs_write"@ {
        Some(FileTool::Write)
    } else if name == "fs_patch"@ {
        Some(FileTool::Patch)
    } else if name == "fs_mkdir"@ {
        Some(FileTool::Mkdir)
    } else if name == "fs_delete"@ {
        Some(FileTool::Delete)
    } else {
        None
    }
}

/// The URL that a call asks for: it has to be there, and to be an HTTP one.
pub open spec fn url_arg(args: JsonView) -> Result<Seq<char>, ToolErrorView> {
    match text_of(field_of(args, "url"@)) {
        None => Err(ToolErrorView::MissingUrl),
        Some(url) => if http_url(url) {
            Ok(url)
        } else {
            Err(ToolErrorView::UnsupportedUrl)
        },
    }
}

pub open spec fn shell_call(args: JsonView, cwd: Seq<char>, home: Option<Seq<char>>) -> Result<
    CallView,
    ToolErrorView,
> {
    match shell_request(args, cwd, home) {
        Ok((command, dir)) => Ok(CallView::ShellExec(command, dir)),
        Err(e) => Err(ToolErrorView::Shell(e)),
    }
}

pub open spec fn background_call(args: JsonView, cwd: Seq<char>, home: Option<Seq<char>>) -> Result<
    CallView,
    ToolErrorView,
> {
    match shell_request(args, cwd, home) {
        Ok((command, dir)) => Ok(CallView::ShellBackground(command, dir)),
        Err(e) => Err(ToolErrorView::Shell(e)),
    }
}

pub open spec fn poll_call(args: JsonView) -> Result<CallView, ToolErrorView> {
    match poll_request(args) {
        Ok((pid, timeout_secs)) => Ok(CallView::ShellPoll { pid, timeout_secs }),
        Err(e) => Err(ToolErrorView::Shell(e)),
    }
}

pub open spec fn fetch_call(args: JsonView, config: AssistantConfig) -> Result<
    CallView,
    ToolErrorView,
> {
    match url_arg(args) {
        Ok(url) => Ok(
            CallView::WebFetch {
                url,
                script: opt_view(config.web_fetch_script),
                raw: wants_raw(args),
            },
        ),
        Err(e) => Err(e),
    }
}

pub open spec fn read_url_call(args: JsonView, config: AssistantConfig) -> Result<
    CallView,
    ToolErrorView,
> {
    match url_arg(args) {
        Ok(url) => Ok(
            CallView::ReadUrl {
                url,
                provider: word_or(opt_view(config.web_search_provider), ""@),
                api_key: word_or(opt_view(config.web_search_api_key), ""@),
                raw: wants_raw(args),
            },
        ),
        Err(e) => Err(e),
    }
}

pub open spec fn search_call(args: JsonView, config: AssistantConfig) -> Result<
    CallView,
    ToolErrorView,
> {
    match search_request(args, config) {
        Ok(s) => Ok(CallView::WebSearch(s)),
        Err(e) => Err(ToolErrorView::Search(e)),
    }
}

pub open spec fn symbol_call(args: JsonView, cwd: Seq<char>) -> Result<CallView, ToolErrorView> {
    match text_of(field_of(args, "query"@)) {
        None => Err(ToolErrorView::MissingQuery),
        Some(query) => Ok(
            CallView::SymbolSearch {
                query,
                path: path_arg_or(args, cwd),
                kind: word_or(text_of(field_of(args, "kind"@)), "all"@),
                glob: text_of(field_of(args, "glob"@)),
            },
        ),
    }
}

pub open spec fn grep_call(args: JsonView, cwd: Seq<char>) -> Result<CallView, ToolErrorView> {
    match text_of(field_of(args, "pattern"@)) {
        None => Err(ToolErrorView::MissingPattern),
        Some(pattern) => Ok(
            CallView::GrepSearch {
                pattern,
                path: path_arg_or(args, cwd),
                glob: text_of(field_of(args, "glob"@)),
                context_lines: clamped(unsigned_of(field_of(args, "context_lines"@)), 2, 100),
                case_insensitive: flag_or(bool_of(field_of(args, "case_insensitive"@))),
                max_results: clamped(unsigned_of(field_of(args, "max_results"@)), 100, 1000),
            },
        ),
    }
}

pub open spec fn http_call(args: JsonView) -> Result<CallView, ToolErrorView> {
    match text_of(field_of(args, "method"@)) {
        None => Err(ToolErrorView::MissingMethod),
        Some(method) => match url_arg(args) {
            Ok(url) => Ok(CallView::HttpRequest { method, url }),
            Err(e) => Err(e),
        },
    }
}

/// What a tool call asks for.
pub open spec fn call_of(
    name: Seq<char>,
    args: JsonView,
    cwd: Seq<char>,
    home: Option<Seq<char>>,
    config: AssistantConfig,
) -> Result<CallView, ToolErrorView> {
    if file_tool_of(name) is Some {
        Ok(CallView::File(file_tool_of(name)->0))
    } else if name == "shell_exec"@ {
        shell_call(args, cwd, home)
    } else if name == "shell_bg"@ {
        background_call(args, cwd, home)
    } else if name == "shell_poll"@ {
        poll_call(args)
    } else if name == "pwd"@ {
        Ok(CallView::Pwd)
    } else if name == "web_fetch"@ {
        fetch_call(args, config)
    } else if name == "web_search"@ {
        search_call(args, config)
    } else if name == "read_url"@ {
        read_url_call(args, config)
    } else if name == "project_summary"@ {
        Ok(CallView::ProjectSummary { path: path_arg_or(args, cwd) })
    } else if name == "file_tree"@ {
        Ok(
            CallView::FileTree {
                path: path_arg_or(args, cwd),
                depth: clamped(unsigned_of(field_of(args, "depth"@)), 3, 6),
            },
        )
    } else if name == "symbol_search"@ {
        symbol_call(args, cwd)
    } else if name == "grep_search"@ {
        grep_call(args, cwd)
    } else if name == "memory_read"@ {
        Ok(CallView::MemoryRead)
    } else if name == "soul_read"@ {
        Ok(CallView::SoulRead { file: word_or(text_of(field_of(args, "file"@)), "all"@) })
    } else if name == "http_request"@ {
        http_call(args)
    } else {
        Err(ToolErrorView::UnknownTool(name))
    }
}

pub open spec fn call_outcome(r: Result<ToolCall, ToolError>) -> Result<CallView, ToolErrorView> {
    match r {
        Ok(c) => Ok(c@),
        Err(e) => Err(e@),
    }
}

fn file_tool(name: &str) -> (r: Option<FileTool>)
    ensures
        r == file_tool_of(name@),
{
    if same(name, "fs_read") {
        Some(FileTool::Read)
    } else if same(name, "fs_list") {
        Some(FileTool::List)
    } else if same(name, "fs_write") {
        Some(FileTool::Write)
    } else if same(name, "fs_patch") {
        Some(FileTool::Patch)
    } else if same(name, "fs_mkdir") {
        Some(FileTool::Mkdir)
    } else if same(name, "fs_delete") {
        Some(FileTool::Delete)
    } else {
        None
    }
}

fn checked_url(args: &JsonValue) -> (r: Result<String, ToolError>)
    ensures
        (match r {
            Ok(u) => Ok(u@),
            Err(e) => Err(e@),
        }) == url_arg(args@),
{
    match args.get_str("url") {
        None => Err(ToolError::MissingUrl),
        Some(url) => if is_http_url(url) {
            Ok(url.to_owned())
        } else {
            Err(ToolError::UnsupportedUrl)
        },
    }
}

fn word(value: Option<&str>, default: &str) -> (r: String)
    ensures
        r@ == word_or(opt_str(value), default@),
{
    match value {
        Some(v) => v.to_owned(),
        None => default.to_owned(),
    }
}

fn opt_word(value: &Option<String>, default: &str) -> (r: String)
    ensures
        r@ == word_or(opt_view(*value), default@),
{
    match value {
        Some(v) => v.clone(),
        None => default.to_owned(),
    }
}

fn owned(value: Option<&str>) -> (r: Option<String>)
    ensures
        opt_view(r) == opt_str(value),
{
    match value {
        Some(v) => Some(v.to_owned()),
        None => None,
    }
}

fn flag(value: Option<bool>) -> (r: bool)
    ensures
        r == flag_or(value),
{
    match value {
        Some(b) => b,
        None => false,
    }
}

fn raw_wanted(args: &JsonValue) -> (r: bool)
    ensures
        r == wants_raw(args@),
{
    let detail = word(args.get_str("detail"), "default");
    should_return_raw_fetch(detail.as_str(), flag(args.get_bool("raw")))
}

fn plan_symbol(args: &JsonValue, cwd: &str) -> (r: Result<ToolCall, ToolError>)
    ensures
        call_outcome(r) == symbol_call(args@, cwd@),
{
    match args.get_str("query") {
        None => Err(ToolError::MissingQuery),
        Some(query) => Ok(
            ToolCall::SymbolSearch {
                query: query.to_owned(),
                path: optional_path_arg(args, cwd).to_owned(),
                kind: word(args.get_str("kind"), "all"),
                glob: owned(args.get_str("glob")),
            },
        ),
    }
}

fn plan_grep(args: &JsonValue, cwd: &str) -> (r: Result<ToolCall, ToolError>)
    ensures
        call_outcome(r) == grep_call(args@, cwd@),
{
    match args.get_str("pattern") {
        None => Err(ToolError::MissingPattern),
        // Clamp model-supplied sizes: unbounded values would make ripgrep
        // (or the in-process fallback) materialize entire trees as output.
        Some(pattern) => Ok(
            ToolCall::GrepSearch {
                pattern: pattern.to_owned(),
                path: optional_path_arg(args, cwd).to_owned(),
                glob: owned(args.get_str("glob")),
                context_lines: clamp(args.get_u64("context_lines"), 2, 100),
                case_insensitive: flag(args.get_bool("case_insensitive")),
                max_results: clamp(args.get_u64("max_results"), 100, 1000),
            },
        ),
    }
}

fn plan_page(name: &str, args: &JsonValue, config: &AssistantConfig) -> (r: Result<
    ToolCall,
    ToolError,
>)
    ensures
        call_outcome(r) == if name@ == "web_fetch"@ {
            fetch_call(args@, *config)
        } else {
            read_url_call(args@, *config)
        },
{
    let url = match checked_url(args) {
        Ok(u) => u,
        Err(e) => {
            return Err(e);
        },
    };
    let raw = raw_wanted(args);
    if same(name, "web_fetch") {
        Ok(ToolCall::WebFetch { url, script: clone_opt(&config.web_fetch_script), raw })
    } else {
        Ok(
            ToolCall::ReadUrl {
                url,
                provider: opt_word(&config.web_search_provider, ""),
                api_key: opt_word(&config.web_search_api_key, ""),
                raw,
            },
        )
    }
}

/// Reads a tool call by name. `args` is the parsed JSON from the model, `cwd`
/// the agent's current working directory.
pub fn plan_tool_call(
    name: &str,
    args: &JsonValue,
    cwd: &str,
    home: Option<&str>,
    config: &AssistantConfig,
) -> (r: Result<ToolCall, ToolError>)
    ensures
        call_outcome(r) == call_of(name@, args@, cwd@, opt_str(home), *config),
{
    if let Some(tool) = file_tool(name) {
        return Ok(ToolCall::File(tool));
    }
    if same(name, "shell_exec") {
        return match plan_shell(args, cwd, home) {
            Ok(s) => Ok(ToolCall::ShellExec(s)),
            Err(e) => Err(ToolError::Shell(e)),
        };
    }
    if same(name, "shell_bg") {
        return match plan_shell(args, cwd, home) {
            Ok(s) => Ok(ToolCall::ShellBackground(s)),
            Err(e) => Err(ToolError::Shell(e)),
        };
    }
    if same(name, "shell_poll") {
        return match plan_poll(args) {
            Ok((pid, timeout_secs)) => Ok(ToolCall::ShellPoll { pid, timeout_secs }),
            Err(e) => Err(ToolError::Shell(e)),
        };
    }
    if same(name, "pwd") {
        return Ok(ToolCall::Pwd);
    }
    if same(name, "web_fetch") {
        return plan_page(name, args, config);
    }
    if same(name, "web_search") {
        return match plan_web_search(args, config) {
            Ok(s) => Ok(ToolCall::WebSearch(s)),
            Err(e) => Err(ToolError::Search(e)),
        };
    }
    if same(name, "read_url") {
        return plan_page(name, args, config);
    }
    if same(name, "project_summary") {
        return Ok(ToolCall::ProjectSummary { path: optional_path_arg(args, cwd).to_owned() });
    }
    if same(name, "file_tree") {
        return Ok(
            ToolCall::FileTree {
                path: optional_path_arg(args, cwd).to_owned(),
                depth: clamp(args.get_u64("depth"), 3, 6),
            },
        );
    }
    if same(name, "symbol_search") {
        return plan_symbol(args, cwd);
    }
    if same(name, "grep_search") {
        return plan_grep(args, cwd);
    }
    if same(name, "memory_read") {
        return Ok(ToolCall::MemoryRead);
    }
    if same(name, "soul_read") {
        return Ok(ToolCall::SoulRead { file: word(args.get_str("file"), "all") });
    }
    if same(name, "http_request") {
        return match args.get_str("method") {
            None => Err(ToolError::MissingMethod),
            Some(method) => match checked_url(args) {
                Ok(url) => Ok(ToolCall::HttpRequest { method: method.to_owned(), url }),
                Err(e) => Err(e),
            },
        };
    }
    Err(ToolError::UnknownTool(name.to_owned()))
}

/// The output cap of a call: by tool and level of detail.
pub fn output_cap(name: &str, args: &JsonValue) -> (r: usize)
    ensures
        r == budget(name@, detail_of(args@)),
{
    let detail = word(args.get_str("detail"), "default");
    budget_for(name, detail.as_str())
}

// ---------------------------------------------------------------------------
// Laws
// ---------------------------------------------------------------------------

/// Whether the dispatcher knows a tool.
pub open spec fn known_tool(name: Seq<char>) -> bool {
    file_tool_of(name) is Some || name == "shell_exec"@ || name == "shell_bg"@ || name
        == "shell_poll"@ || name == "pwd"@ || name == "web_fetch"@ || name == "web_search"@ || name
        == "read_url"@ || name == "project_summary"@ || name == "file_tree"@ || name
        == "symbol_search"@ || name == "grep_search"@ || name == "memory_read"@ || name
        == "soul_read"@ || name == "http_request"@
}

/// Every tool that is offered to the model is one that the dispatcher knows.
pub proof fn offered_tools_are_dispatched(config: AssistantConfig, i: int)
    requires
        0 <= i < offered_tools(config).len(),
    ensures
        known_tool(offered_tools(config)[i].name),
{
    let tools = offered_tools(config);
    let search = if config.web_search_ready {
        search_tools(search_provider_name(config))
    } else {
        seq![]
    };
    let a = file_tools().len() as int;
    let b = a + shell_tools().len();
    let c = b + search.len();
    let d = c + project_tools().len();
    if i < a {
        assert(tools[i] == file_tools()[i]);
    } else if i < b {
        assert(tools[i] == shell_tools()[i - a]);
    } else if i < c {
        assert(tools[i] == search[i - b]);
    } else if i < d {
        assert(tools[i] == project_tools()[i - c]);
    } else {
        assert(tools[i] == memory_tools()[i - d]);
    }
}

/// Exactly the tools that are not known are refused as unknown.
pub proof fn unknown_tools_are_refused(
    name: Seq<char>,
    args: JsonView,
    cwd: Seq<char>,
    home: Option<Seq<char>>,
    config: AssistantConfig,
)
    ensures
        (call_of(name, args, cwd, home, config) == Err::<CallView, ToolErrorView>(
            ToolErrorView::UnknownTool(name),
        )) == !known_tool(name),
{
}

/// Whatever the model asks for, a search shows at most a hundred lines of
/// context and a thousand results, and a tree is at most six levels deep.
pub proof fn sizes_are_clamped(
    name: Seq<char>,
    args: JsonView,
    cwd: Seq<char>,
    home: Option<Seq<char>>,
    config: AssistantConfig,
)
    ensures
        match call_of(name, args, cwd, home, config) {
            Ok(CallView::GrepSearch { context_lines, max_results, .. }) => context_lines <= 100
                && max_results <= 1000,
            Ok(CallView::FileTree { depth, .. }) => depth <= 6,
            _ => true,
        },
{
}

/// What is read of the memories: a note where there are none.
pub fn memories_or_note(content: Option<&str>) -> (r: String)
    ensures
        r@ == (match content {
            Some(text) => text@,
            None => "(no memories yet)"@,
        }),
{
    match content {
        Some(text) => text.to_owned(),
        None => "(no memories yet)".to_owned(),
    }
}

} // verus!
