//! Web search providers: what is asked of each, and how its answer reads.
use crate::json::{
    JsonValue, JsonView, add_field, add_value, field_of, field_views, items_of, json_string,
    json_views, no_fields, no_values, opt_str, text_of,
};
use crate::registry::{AssistantConfig, number_view};
use crate::text::{
    concat2, concat3, concat5, decimal_of, opt_view, parse_u32, parsed_unsigned, prefix_chars,
    same, take_chars,
};
use crate::web::{Pair, first_text, pair_views};
use vstd::prelude::*;
use vstd::string::*;

verus! {

// ---------------------------------------------------------------------------
// The request
// ---------------------------------------------------------------------------

#[derive(Clone, Copy, Debug, PartialEq, Eq, Structural)]
pub enum SearchProvider {
    Brave,
    Pipellm,
    Tavily,
}

/// Why a search is not made.
#[derive(Debug)]
pub enum SearchError {
    MissingQuery,
    NoProvider,
    NoApiKey,
    UnknownProvider(String),
}

pub enum SearchErrorView {
    MissingQuery,
    NoProvider,
    NoApiKey,
    UnknownProvider(Seq<char>),
}

impl View for SearchError {
    type V = SearchErrorView;

    open spec fn view(&self) -> SearchErrorView {
        match *self {
            SearchError::MissingQuery => SearchErrorView::MissingQuery,
            SearchError::NoProvider => SearchErrorView::NoProvider,
            SearchError::NoApiKey => SearchErrorView::NoApiKey,
            SearchError::UnknownProvider(p) => SearchErrorView::UnknownProvider(p@),
        }
    }
}

pub open spec fn search_error_text(e: SearchErrorView) -> Seq<char> {
    match e {
        SearchErrorView::MissingQuery => "missing query"@,
        SearchErrorView::NoProvider => "web_search provider not configured"@,
        SearchErrorView::NoApiKey => "web_search api key missing"@,
        SearchErrorView::UnknownProvider(p) => "unknown web_search provider: "@ + p,
    }
}

impl SearchError {
    pub fn message(&self) -> (r: String)
        ensures
            r@ == search_error_text(self@),
    {
        match self {
            SearchError::MissingQuery => "missing query".to_owned(),
            SearchError::NoProvider => "web_search provider not configured".to_owned(),
            SearchError::NoApiKey => "web_search api key missing".to_owned(),
            SearchError::UnknownProvider(p) => concat2(
                "unknown web_search provider: ",
                p.as_str(),
            ),
        }
    }
}

/// A search, ready to be put to its provider.
#[derive(Debug)]
pub struct WebSearchRequest {
    pub provider: SearchProvider,
    pub query: String,
    pub api_key: String,
    pub kind: Option<String>,
    pub freshness: Option<String>,
    pub search_depth: Option<String>,
}

pub struct SearchView {
    pub provider: SearchProvider,
    pub query: Seq<char>,
    pub api_key: Seq<char>,
    pub kind: Option<Seq<char>>,
    pub freshness: Option<Seq<char>>,
    pub search_depth: Option<Seq<char>>,
}

impl View for WebSearchRequest {
    type V = SearchView;

    open spec fn view(&self) -> SearchView {
        SearchView {
            provider: self.provider,
            query: self.query@,
            api_key: self.api_key@,
            kind: opt_view(self.kind),
            freshness: opt_view(self.freshness),
            search_depth: opt_view(self.search_depth),
        }
    }
}

pub open spec fn provider_of(name: Seq<char>) -> Option<SearchProvider> {
    if name == "brave"@ {
        Some(SearchProvider::Brave)
    } else if name == "pipellm"@ {
        Some(SearchProvider::Pipellm)
    } else if name == "tavily"@ {
        Some(SearchProvider::Tavily)
    } else {
        None
    }
}

/// The search that a tool call asks for.
pub open spec fn search_request(args: JsonView, config: AssistantConfig) -> Result<
    SearchView,
    SearchErrorView,
> {
    match text_of(field_of(args, "query"@)) {
        None => Err(SearchErrorView::MissingQuery),
        Some(query) => match config.web_search_provider {
            None => Err(SearchErrorView::NoProvider),
            Some(name) => match config.web_search_api_key {
                None => Err(SearchErrorView::NoApiKey),
                Some(key) => match provider_of(name@) {
                    None => Err(SearchErrorView::UnknownProvider(name@)),
                    Some(provider) => Ok(
                        SearchView {
                            provider,
                            query,
                            api_key: key@,
                            kind: text_of(field_of(args, "kind"@)),
                            freshness: text_of(field_of(args, "freshness"@)),
                            search_depth: text_of(field_of(args, "search_depth"@)),
                        },
                    ),
                },
            },
        },
    }
}

pub open spec fn search_outcome(r: Result<WebSearchRequest, SearchError>) -> Result<
    SearchView,
    SearchErrorView,
> {
    match r {
        Ok(s) => Ok(s@),
        Err(e) => Err(e@),
    }
}

fn owned(o: Option<&str>) -> (r: Option<String>)
    ensures
        opt_view(r) == opt_str(o),
{
    match o {
        Some(s) => Some(s.to_owned()),
        None => None,
    }
}

/// Reads the arguments of a web search and picks its provider.
pub fn plan_web_search(args: &JsonValue, config: &AssistantConfig) -> (r: Result<
    WebSearchRequest,
    SearchError,
>)
    ensures
        search_outcome(r) == search_request(args@, *config),
{
    let query = match args.get_str("query") {
        Some(q) => q,
        None => {
            return Err(SearchError::MissingQuery);
        },
    };
    let name = match &config.web_search_provider {
        Some(p) => p.as_str(),
        None => {
            return Err(SearchError::NoProvider);
        },
    };
    let api_key = match &config.web_search_api_key {
        Some(k) => k.as_str(),
        None => {
            return Err(SearchError::NoApiKey);
        },
    };
    let provider = if same(name, "brave") {
        SearchProvider::Brave
    } else if same(name, "pipellm") {
        SearchProvider::Pipellm
    } else if same(name, "tavily") {
        SearchProvider::Tavily
    } else {
        return Err(SearchError::UnknownProvider(name.to_owned()));
    };
    Ok(
        WebSearchRequest {
            provider,
            query: query.to_owned(),
            api_key: api_key.to_owned(),
            kind: owned(args.get_str("kind")),
            freshness: owned(args.get_str("freshness")),
            search_depth: owned(args.get_str("search_depth")),
        },
    )
}

pub open spec fn is_kind(kind: Option<Seq<char>>, name: Seq<char>) -> bool {
    kind matches Some(k) && k == name
}

fn has_kind(kind: Option<&str>, name: &str) -> (r: bool)
    ensures
        r == is_kind(opt_str(kind), name@),
{
    match kind {
        Some(k) => same(k, name),
        None => false,
    }
}

/// Where a brave search is sent.
pub fn brave_endpoint(kind: Option<&str>) -> (r: &'static str)
    ensures
        r@ == if is_kind(opt_str(kind), "news"@) {
            "https://api.search.brave.com/res/v1/news/search"@
        } else {
            "https://api.search.brave.com/res/v1/web/search"@
        },
{
    if has_kind(kind, "news") {
        "https://api.search.brave.com/res/v1/news/search"
    } else {
        "https://api.search.brave.com/res/v1/web/search"
    }
}

pub open spec fn brave_params(query: Seq<char>, freshness: Option<Seq<char>>) -> Seq<
    (Seq<char>, Seq<char>),
> {
    let base = seq![("q"@, query), ("count"@, "10"@), ("extra_snippets"@, "true"@)];
    match freshness {
        Some(f) => base.push(("freshness"@, f)),
        None => base,
    }
}

fn add_pair(list: &mut Vec<Pair>, name: &str, value: &str)
    ensures
        pair_views(final(list)@) == pair_views(old(list)@).push((name@, value@)),
{
    list.push(Pair { name: name.to_owned(), value: value.to_owned() });
    assert(pair_views(list@) =~= pair_views(old(list)@).push((name@, value@)));
}

/// The query parameters of a brave search.
pub fn brave_query(query: &str, freshness: Option<&str>) -> (r: Vec<Pair>)
    ensures
        pair_views(r@) == brave_params(query@, opt_str(freshness)),
{
    let mut list: Vec<Pair> = Vec::new();
    assert(pair_views(list@) =~= Seq::empty());
    add_pair(&mut list, "q", query);
    add_pair(&mut list, "count", "10");
    add_pair(&mut list, "extra_snippets", "true");
    assert(pair_views(list@) =~= seq![("q"@, query@), ("count"@, "10"@), (
        "extra_snippets"@,
        "true"@,
    )]);
    if let Some(f) = freshness {
        add_pair(&mut list, "freshness", f);
    }
    list
}

/// The hosts of pipellm, in the order in which they are tried.
pub open spec fn pipellm_hosts() -> Seq<Seq<char>> {
    seq!["https://api.pipellm.ai"@, "https://api.pipellm.com"@]
}

/// The host to try after `failures` of them failed.
pub fn pipellm_base(failures: usize) -> (r: Option<&'static str>)
    ensures
        opt_str(r) == if failures < pipellm_hosts().len() {
            Some(pipellm_hosts()[failures as int])
        } else {
            None
        },
{
    if failures == 0 {
        Some("https://api.pipellm.ai")
    } else if failures == 1 {
        Some("https://api.pipellm.com")
    } else {
        None
    }
}

pub open spec fn pipellm_path_of(kind: Option<Seq<char>>) -> Seq<char> {
    if is_kind(kind, "news"@) {
        "v1/websearch/search-news"@
    } else if is_kind(kind, "deep"@) {
        "v1/websearch/search"@
    } else {
        "v1/websearch/simple-search"@
    }
}

/// Where a pipellm search is sent, on a given host.
pub fn pipellm_url(base: &str, kind: Option<&str>) -> (r: String)
    ensures
        r@ == base@ + "/"@ + pipellm_path_of(opt_str(kind)),
{
    let path = if has_kind(kind, "news") {
        "v1/websearch/search-news"
    } else if has_kind(kind, "deep") {
        "v1/websearch/search"
    } else {
        "v1/websearch/simple-search"
    };
    concat3(base, "/", path)
}

/// What is kept of a refusal by one of the hosts.
pub fn host_refusal(status: &str, base: &str, body: &str) -> (r: String)
    ensures
        r@ == status@ + " from "@ + base@ + ": "@ + prefix_chars(body@, 300),
{
    let start = take_chars(body, 300);
    concat5(status, " from ", base, ": ", start.as_str())
}

/// What is said where every host failed.
pub fn pipellm_failure(last_error: &str) -> (r: String)
    ensures
        r@ == "pipellm search failed: "@ + last_error@,
{
    concat2("pipellm search failed: ", last_error)
}

/// What is said where a provider refuses a search.
pub fn provider_refusal(provider: &str, status: &str, body: &str) -> (r: String)
    ensures
        r@ == provider@ + " search returned "@ + status@ + ": "@ + prefix_chars(body@, 300),
{
    let start = take_chars(body, 300);
    concat5(provider, " search returned ", status, ": ", start.as_str())
}

/// The days that a recency filter stands for.
pub open spec fn freshness_days(f: Seq<char>) -> nat {
    if f == "pd"@ {
        1
    } else if f == "pw"@ {
        7
    } else if f == "pm"@ {
        31
    } else if f == "py"@ {
        365
    } else {
        match parsed_unsigned(f, u32::MAX as nat) {
            Some(n) => n,
            None => 7,
        }
    }
}

fn days_of(f: &str) -> (r: u32)
    ensures
        r == freshness_days(f@),
{
    if same(f, "pd") {
        1
    } else if same(f, "pw") {
        7
    } else if same(f, "pm") {
        31
    } else if same(f, "py") {
        365
    } else {
        match parse_u32(f) {
            Some(n) => n,
            None => 7,
        }
    }
}

pub open spec fn tavily_base_fields(query: Seq<char>) -> Seq<(Seq<char>, JsonView)> {
    seq![
        ("query"@, JsonView::Text(query)),
        ("max_results"@, number_view(10)),
        ("include_answer"@, JsonView::Bool(true)),
    ]
}

pub open spec fn tavily_topic(kind: Option<Seq<char>>) -> Seq<(Seq<char>, JsonView)> {
    match kind {
        Some(k) => if k == "news"@ || k == "finance"@ {
            seq![("topic"@, JsonView::Text(k))]
        } else {
            seq![]
        },
        None => seq![],
    }
}

pub open spec fn tavily_depth(depth: Option<Seq<char>>) -> Seq<(Seq<char>, JsonView)> {
    match depth {
        Some(d) => seq![("search_depth"@, JsonView::Text(d))],
        None => seq![],
    }
}

pub open spec fn tavily_days(freshness: Option<Seq<char>>) -> Seq<(Seq<char>, JsonView)> {
    match freshness {
        Some(f) => seq![("days"@, number_view(freshness_days(f) as u64))],
        None => seq![],
    }
}

/// The body of a tavily search.
pub open spec fn tavily_request(
    query: Seq<char>,
    kind: Option<Seq<char>>,
    freshness: Option<Seq<char>>,
    depth: Option<Seq<char>>,
) -> JsonView {
    JsonView::Object(
        tavily_base_fields(query) + tavily_topic(kind) + tavily_depth(depth) + tavily_days(
            freshness,
        ),
    )
}

fn number(n: u64) -> (r: JsonValue)
    ensures
        r@ == number_view(n),
{
    JsonValue::Number(
        crate::json::JsonNumber { unsigned: Some(n), text: decimal_of(n as u128) },
    )
}

/// The body of a tavily search.
pub fn tavily_body(
    query: &str,
    kind: Option<&str>,
    freshness: Option<&str>,
    search_depth: Option<&str>,
) -> (r: JsonValue)
    ensures
        r@ == tavily_request(query@, opt_str(kind), opt_str(freshness), opt_str(search_depth)),
{
    let mut fields = no_fields();
    add_field(&mut fields, "query", json_string(query));
    add_field(&mut fields, "max_results", number(10));
    add_field(&mut fields, "include_answer", JsonValue::Bool(true));
    assert(field_views(fields@) =~= tavily_base_fields(query@));
    if let Some(k) = kind {
        if same(k, "news") || same(k, "finance") {
            add_field(&mut fields, "topic", json_string(k));
        }
    }
    assert(field_views(fields@) =~= tavily_base_fields(query@) + tavily_topic(opt_str(kind)));
    if let Some(d) = search_depth {
        add_field(&mut fields, "search_depth", json_string(d));
    }
    assert(field_views(fields@) =~= tavily_base_fields(query@) + tavily_topic(opt_str(kind))
        + tavily_depth(opt_str(search_depth)));
    if let Some(f) = freshness {
        add_field(&mut fields, "days", number(days_of(f) as u64));
    }
    assert(field_views(fields@) =~= tavily_base_fields(query@) + tavily_topic(opt_str(kind))
        + tavily_depth(opt_str(search_depth)) + tavily_days(opt_str(freshness)));
    JsonValue::Object(fields)
}

/// The body of a tavily extraction: the one page.
pub fn tavily_extract_body(url: &str) -> (r: JsonValue)
    ensures
        r@ == JsonView::Object(
            seq![("urls"@, JsonView::Array(seq![JsonView::Text(url@)]))],
        ),
{
    let mut urls = no_values();
    add_value(&mut urls, json_string(url));
    assert(json_views(urls@) =~= seq![JsonView::Text(url@)]);
    let mut fields = no_fields();
    add_field(&mut fields, "urls", JsonValue::Array(urls));
    assert(field_views(fields@) =~= seq![("urls"@, JsonView::Array(seq![JsonView::Text(url@)]))]);
    JsonValue::Object(fields)
}

// ---------------------------------------------------------------------------
// The answer
// ---------------------------------------------------------------------------

pub open spec fn text_or(value: Option<Seq<char>>, default: Seq<char>) -> Seq<char> {
    match value {
        Some(t) => t,
        None => default,
    }
}

/// One result, as it is shown.
pub open spec fn result_line(title: Seq<char>, url: Seq<char>, text: Seq<char>) -> Seq<char> {
    "- **"@ + title + "** <"@ + url + ">\n  "@ + text + "\n"@
}

fn format_result(title: &str, url: &str, text: &str) -> (r: String)
    ensures
        r@ == result_line(title@, url@, text@),
{
    let mut out = concat5("- **", title, "** <", url, ">\n  ");
    out.append(text);
    out.append("\n");
    out
}

fn str_or<'a>(value: Option<&'a str>, default: &'a str) -> (r: &'a str)
    ensures
        r@ == text_or(opt_str(value), default@),
{
    match value {
        Some(t) => t,
        None => default,
    }
}

/// The extra snippets of a result, the first three of them.
pub open spec fn snippet_lines(items: Seq<JsonView>, n: nat) -> Seq<char>
    decreases n,
{
    if n == 0 || n > items.len() {
        seq![]
    } else {
        let before = snippet_lines(items, (n - 1) as nat);
        match items[n - 1] {
            JsonView::Text(s) => before + ("  > "@ + s + "\n"@),
            _ => before,
        }
    }
}

pub open spec fn at_most(n: nat, max: nat) -> nat {
    if n <= max {
        n
    } else {
        max
    }
}

pub open spec fn brave_result(r: JsonView) -> Seq<char> {
    result_line(
        text_or(text_of(field_of(r, "title"@)), "(no title)"@),
        text_or(text_of(field_of(r, "url"@)), ""@),
        text_or(text_of(field_of(r, "description"@)), ""@),
    ) + match items_of(field_of(r, "extra_snippets"@)) {
        Some(items) => snippet_lines(items, at_most(items.len(), 3)),
        None => seq![],
    }
}

fn format_brave_result(r: &JsonValue) -> (out: String)
    ensures
        out@ == brave_result(r@),
{
    let mut out = format_result(
        str_or(r.get_str("title"), "(no title)"),
        str_or(r.get_str("url"), ""),
        str_or(r.get_str("description"), ""),
    );
    let ghost line = out@;
    if let Some(items) = r.get_array("extra_snippets") {
        let ghost all = json_views(items@);
        let mut i: usize = 0;
        assert(line + snippet_lines(all, 0) =~= line);
        while i < items.len() && i < 3
            invariant
                i <= items.len(),
                i <= 3,
                all == json_views(items@),
                out@ == line + snippet_lines(all, i as nat),
            decreases items.len() - i,
        {
            assert(all[i as int] == items@[i as int]@);
            let ghost before = out@;
            if let Some(s) = items[i].as_str() {
                out.append(concat3("  > ", s, "\n").as_str());
                assert(out@ =~= line + (snippet_lines(all, i as nat) + ("  > "@ + s@ + "\n"@)));
            }
            i += 1;
        }
    } else {
        assert(out@ =~= line + seq![]);
    }
    assert(out@ =~= brave_result(r@));
    out
}

/// The results that a brave answer holds.
pub open spec fn brave_items(json: JsonView, news: bool) -> Seq<JsonView> {
    let list = if news {
        items_of(field_of(json, "results"@))
    } else {
        match field_of(json, "web"@) {
            Some(web) => items_of(field_of(web, "results"@)),
            None => None,
        }
    };
    match list {
        Some(items) => items,
        None => seq![],
    }
}

/// The first `n` results of a brave answer, one after the other.
pub open spec fn brave_listing(items: Seq<JsonView>, n: nat) -> Seq<char>
    decreases n,
{
    if n == 0 || n > items.len() {
        seq![]
    } else {
        brave_listing(items, (n - 1) as nat) + brave_result(items[n - 1])
    }
}

/// How a brave answer reads.
pub open spec fn brave_answer(json: JsonView, news: bool) -> Seq<char> {
    let items = brave_items(json, news);
    if items.len() == 0 {
        "No results found."@
    } else {
        brave_listing(items, at_most(items.len(), 10))
    }
}

fn list_brave(items: &Vec<JsonValue>) -> (r: String)
    ensures
        r@ == brave_listing(json_views(items@), at_most(items@.len(), 10)),
{
    let ghost all = json_views(items@);
    let mut out = String::new();
    let mut i: usize = 0;
    while i < items.len() && i < 10
        invariant
            i <= items.len(),
            i <= 10,
            all == json_views(items@),
            out@ == brave_listing(all, i as nat),
        decreases items.len() - i,
    {
        assert(all[i as int] == items@[i as int]@);
        out.append(format_brave_result(&items[i]).as_str());
        i += 1;
    }
    out
}

/// How a brave answer reads.
pub fn render_brave(json: &JsonValue, kind: Option<&str>) -> (r: String)
    ensures
        r@ == brave_answer(json@, is_kind(opt_str(kind), "news"@)),
{
    let list = if has_kind(kind, "news") {
        json.get_array("results")
    } else {
        match json.get("web") {
            Some(web) => web.get_array("results"),
            None => None,
        }
    };
    match list {
        Some(items) => if items.len() == 0 {
            assert(json_views(items@).len() == 0);
            "No results found.".to_owned()
        } else {
            assert(json_views(items@).len() == items@.len());
            list_brave(items)
        },
        None => "No results found.".to_owned(),
    }
}

pub open spec fn pipellm_result(r: JsonView) -> Seq<char> {
    result_line(
        text_or(text_of(field_of(r, "title"@)), "(no title)"@),
        text_or(
            first_text(text_of(field_of(r, "link"@)), text_of(field_of(r, "url"@))),
            ""@,
        ),
        text_or(
            first_text(text_of(field_of(r, "snippet"@)), text_of(field_of(r, "content"@))),
            ""@,
        ),
    )
}

pub open spec fn pipellm_items(json: JsonView) -> Seq<JsonView> {
    match items_of(field_of(json, "organic"@)) {
        Some(items) => items,
        None => match field_of(json, "data"@) {
            Some(data) => match items_of(field_of(data, "organic"@)) {
                Some(items) => items,
                None => seq![],
            },
            None => seq![],
        },
    }
}

pub open spec fn pipellm_listing(items: Seq<JsonView>, n: nat) -> Seq<char>
    decreases n,
{
    if n == 0 || n > items.len() {
        seq![]
    } else {
        pipellm_listing(items, (n - 1) as nat) + pipellm_result(items[n - 1])
    }
}

/// How a pipellm answer reads.
pub open spec fn pipellm_answer(json: JsonView) -> Seq<char> {
    let items = pipellm_items(json);
    if items.len() == 0 {
        "No results found."@
    } else {
        pipellm_listing(items, at_most(items.len(), 10))
    }
}

fn either_str<'a>(a: Option<&'a str>, b: Option<&'a str>) -> (r: Option<&'a str>)
    ensures
        opt_str(r) == first_text(opt_str(a), opt_str(b)),
{
    match a {
        Some(s) => Some(s),
        None => b,
    }
}

/// How a pipellm answer reads.
pub fn render_pipellm(json: &JsonValue) -> (r: String)
    ensures
        r@ == pipellm_answer(json@),
{
    let list = match json.get_array("organic") {
        Some(items) => Some(items),
        None => match json.get("data") {
            Some(data) => data.get_array("organic"),
            None => None,
        },
    };
    let items = match list {
        Some(items) => items,
        None => {
            return "No results found.".to_owned();
        },
    };
    let ghost all = json_views(items@);
    assert(all.len() == items@.len());
    if items.len() == 0 {
        return "No results found.".to_owned();
    }
    let mut out = String::new();
    let mut i: usize = 0;
    while i < items.len() && i < 10
        invariant
            i <= items.len(),
            i <= 10,
            all == json_views(items@),
            out@ == pipellm_listing(all, i as nat),
        decreases items.len() - i,
    {
        let r = &items[i];
        assert(all[i as int] == r@);
        let line = format_result(
            str_or(r.get_str("title"), "(no title)"),
            str_or(either_str(r.get_str("link"), r.get_str("url")), ""),
            str_or(either_str(r.get_str("snippet"), r.get_str("content")), ""),
        );
        out.append(line.as_str());
        i += 1;
    }
    out
}

pub open spec fn tavily_result(r: JsonView) -> Seq<char> {
    result_line(
        text_or(text_of(field_of(r, "title"@)), "(no title)"@),
        text_or(text_of(field_of(r, "url"@)), ""@),
        text_or(text_of(field_of(r, "content"@)), ""@),
    )
}

pub open spec fn tavily_listing(items: Seq<JsonView>, n: nat) -> Seq<char>
    decreases n,
{
    if n == 0 || n > items.len() {
        seq![]
    } else {
        tavily_listing(items, (n - 1) as nat) + tavily_result(items[n - 1])
    }
}

pub open spec fn tavily_lead(json: JsonView) -> Seq<char> {
    match text_of(field_of(json, "answer"@)) {
        Some(answer) => if answer.len() > 0 {
            "**Answer:** "@ + answer + "\n\n"@
        } else {
            seq![]
        },
        None => seq![],
    }
}

pub open spec fn tavily_items(json: JsonView) -> Seq<JsonView> {
    match items_of(field_of(json, "results"@)) {
        Some(items) => items,
        None => seq![],
    }
}

/// How a tavily answer reads: the direct answer, if any, before the results.
pub open spec fn tavily_answer(json: JsonView) -> Seq<char> {
    let items = tavily_items(json);
    let lead = tavily_lead(json);
    if items.len() == 0 && lead.len() == 0 {
        "No results found."@
    } else {
        lead + tavily_listing(items, at_most(items.len(), 10))
    }
}

/// How a tavily answer reads.
pub fn render_tavily(json: &JsonValue) -> (r: String)
    ensures
        r@ == tavily_answer(json@),
{
    let mut out = String::new();
    if let Some(answer) = json.get_str("answer") {
        if !answer.is_empty() {
            out = concat3("**Answer:** ", answer, "\n\n");
        }
    }
    assert(out@ =~= tavily_lead(json@));
    let ghost lead = out@;
    match json.get_array("results") {
        None => if out.as_str().is_empty() {
            "No results found.".to_owned()
        } else {
            assert(out@ =~= tavily_answer(json@));
            out
        },
        Some(items) => {
            let ghost all = json_views(items@);
            assert(all.len() == items@.len());
            if items.len() == 0 && out.as_str().is_empty() {
                return "No results found.".to_owned();
            }
            let mut i: usize = 0;
            assert(lead + tavily_listing(all, 0) =~= lead);
            while i < items.len() && i < 10
                invariant
                    i <= items.len(),
                    i <= 10,
                    all == json_views(items@),
                    out@ == lead + tavily_listing(all, i as nat),
                decreases items.len() - i,
            {
                let r = &items[i];
                assert(all[i as int] == r@);
                let line = format_result(
                    str_or(r.get_str("title"), "(no title)"),
                    str_or(r.get_str("url"), ""),
                    str_or(r.get_str("content"), ""),
                );
                out.append(line.as_str());
                assert(out@ =~= lead + (tavily_listing(all, i as nat) + tavily_result(r@)));
                i += 1;
            }
            out
        },
    }
}

} // verus!
