//! The rounds of reading a page or asking a search provider: whom to ask next,
//! from what the last one answered.
use crate::json::{JsonValue, JsonView, json_document, opt_str, parse_json};
use crate::text::{concat2, prefix_chars, same, trimmed};
use crate::web::{
    accepts_markdown, fetch_failure, markdown_sources, pipellm_page, pipellm_reader_text,
    tavily_extract_text, tavily_page,
};
use crate::web_search::{
    SearchProvider, brave_answer, host_refusal, is_kind, pipellm_answer, pipellm_base, pipellm_failure,
    pipellm_hosts, provider_refusal, render_brave, render_pipellm, render_tavily, tavily_answer,
};
use vstd::prelude::*;
use vstd::string::*;

verus! {

/// What came of asking a server.
#[derive(Debug)]
pub enum Reply {
    /// It could not be reached, for this reason.
    Unreachable(String),
    /// It answered with an error.
    Refused { status: String, body: String },
    /// It answered, but the answer could not be read.
    Unreadable,
    Page(String),
}

// ---------------------------------------------------------------------------
// Pages as Markdown
// ---------------------------------------------------------------------------

/// What to do next about a page.
#[derive(Debug)]
pub enum FetchStep {
    /// Ask this address.
    Get(String),
    Done(String),
    Failed(String),
}

pub enum FetchStepView {
    Get(Seq<char>),
    Done(Seq<char>),
    Failed(Seq<char>),
}

impl View for FetchStep {
    type V = FetchStepView;

    open spec fn view(&self) -> FetchStepView {
        match *self {
            FetchStep::Get(url) => FetchStepView::Get(url@),
            FetchStep::Done(text) => FetchStepView::Done(text@),
            FetchStep::Failed(error) => FetchStepView::Failed(error@),
        }
    }
}

/// What follows the answer of the first source: it is used where it is not
/// blank, else the second one is asked.
pub open spec fn after_first_source(url: Seq<char>, reply: Reply) -> FetchStepView {
    match reply {
        Reply::Page(text) => if trimmed(text@).len() > 0 {
            FetchStepView::Done(text@)
        } else {
            FetchStepView::Get("https://r.jina.ai/"@ + url)
        },
        _ => FetchStepView::Get("https://r.jina.ai/"@ + url),
    }
}

/// What follows the answer of the second source.
pub open spec fn after_second_source(reply: Reply) -> FetchStepView {
    match reply {
        Reply::Page(text) => FetchStepView::Done(text@),
        Reply::Unreachable(_) => FetchStepView::Failed(
            "both defuddle.md and r.jina.ai unreachable"@,
        ),
        Reply::Refused { status, .. } => FetchStepView::Failed(
            "fetch failed: defuddle.md and r.jina.ai both returned non-2xx (last: "@ + status@
                + ")"@,
        ),
        Reply::Unreadable => FetchStepView::Failed("read fetch response body"@),
    }
}

/// Fetch a URL as Markdown: the first source to ask.
pub fn fetch_markdown_default(url: &str) -> (r: FetchStep)
    ensures
        r@ == FetchStepView::Get("https://defuddle.md/"@ + url@),
{
    let (first, _) = markdown_sources(url);
    FetchStep::Get(first)
}

/// Takes the answer of the first source, or of the second one.
pub fn next_fetch(url: &str, second: bool, reply: Reply) -> (r: FetchStep)
    ensures
        r@ == (if second {
            after_second_source(reply)
        } else {
            after_first_source(url@, reply)
        }),
{
    if second {
        match reply {
            Reply::Page(text) => FetchStep::Done(text),
            Reply::Unreachable(_) => FetchStep::Failed(
                "both defuddle.md and r.jina.ai unreachable".to_owned(),
            ),
            Reply::Refused { status, .. } => FetchStep::Failed(fetch_failure(status.as_str())),
            Reply::Unreadable => FetchStep::Failed("read fetch response body".to_owned()),
        }
    } else {
        match reply {
            Reply::Page(text) => if accepts_markdown(true, Some(text.as_str())) {
                FetchStep::Done(text)
            } else {
                let (_, fallback) = markdown_sources(url);
                FetchStep::Get(fallback)
            },
            _ => {
                let (_, fallback) = markdown_sources(url);
                FetchStep::Get(fallback)
            },
        }
    }
}

// ---------------------------------------------------------------------------
// Pages by a provider's reader
// ---------------------------------------------------------------------------

/// What to do next about a page that a provider may read.
#[derive(Debug)]
pub enum ReadStep {
    /// Ask the pipellm reader on this host, after so many hosts failed.
    Pipellm { base: String, failures: usize },
    /// Ask tavily to extract the page.
    Tavily,
    /// Fetch the page as Markdown.
    Fetch,
    Done(String),
    Failed(String),
}

pub enum ReadStepView {
    Pipellm { base: Seq<char>, failures: nat },
    Tavily,
    Fetch,
    Done(Seq<char>),
    Failed(Seq<char>),
}

impl View for ReadStep {
    type V = ReadStepView;

    open spec fn view(&self) -> ReadStepView {
        match *self {
            ReadStep::Pipellm { base, failures } => ReadStepView::Pipellm {
                base: base@,
                failures: failures as nat,
            },
            ReadStep::Tavily => ReadStepView::Tavily,
            ReadStep::Fetch => ReadStepView::Fetch,
            ReadStep::Done(text) => ReadStepView::Done(text@),
            ReadStep::Failed(error) => ReadStepView::Failed(error@),
        }
    }
}

/// The host to ask after so many failed; a fetch where none is left.
pub open spec fn reader_after(failures: nat) -> ReadStepView {
    if failures < pipellm_hosts().len() {
        ReadStepView::Pipellm { base: pipellm_hosts()[failures as int], failures }
    } else {
        ReadStepView::Fetch
    }
}

/// Whom to ask first.
pub open spec fn first_reader(provider: Seq<char>) -> ReadStepView {
    if provider == "pipellm"@ {
        reader_after(0)
    } else if provider == "tavily"@ {
        ReadStepView::Tavily
    } else {
        ReadStepView::Fetch
    }
}

/// What follows an answer of the pipellm reader: an error leads to the next
/// host.
pub open spec fn after_pipellm(failures: nat, reply: Reply) -> ReadStepView {
    match reply {
        Reply::Unreachable(_) | Reply::Refused { .. } => reader_after(failures + 1),
        Reply::Unreadable => ReadStepView::Failed("parse pipellm reader response"@),
        Reply::Page(text) => match json_document(text@) {
            Some(json) => ReadStepView::Done(pipellm_page(json)),
            None => ReadStepView::Failed("parse pipellm reader response"@),
        },
    }
}

/// What follows an answer of tavily: a refusal or a blank page leads to a fetch.
pub open spec fn after_tavily(reply: Reply) -> ReadStepView {
    match reply {
        Reply::Unreachable(_) => ReadStepView::Failed("tavily extract request failed"@),
        Reply::Refused { .. } => ReadStepView::Fetch,
        Reply::Unreadable => ReadStepView::Failed("parse tavily extract response"@),
        Reply::Page(text) => match json_document(text@) {
            Some(json) => match tavily_page(json) {
                Some(page) => ReadStepView::Done(page),
                None => ReadStepView::Fetch,
            },
            None => ReadStepView::Failed("parse tavily extract response"@),
        },
    }
}

fn ask_pipellm(failures: usize) -> (r: ReadStep)
    ensures
        r@ == reader_after(failures as nat),
{
    match pipellm_base(failures) {
        Some(base) => ReadStep::Pipellm { base: base.to_owned(), failures },
        None => ReadStep::Fetch,
    }
}

/// Read a URL and return clean extracted text. Uses provider-native readers
/// where available, falls back to generic fetchers.
pub fn start_read_url(provider: &str) -> (r: ReadStep)
    ensures
        r@ == first_reader(provider@),
{
    if same(provider, "pipellm") {
        ask_pipellm(0)
    } else if same(provider, "tavily") {
        ReadStep::Tavily
    } else {
        ReadStep::Fetch
    }
}

/// What a page of the pipellm reader leads to, once it is parsed.
pub fn pipellm_page_step(json: Option<JsonValue>) -> (r: ReadStep)
    ensures
        r@ == (match json {
            Some(j) => ReadStepView::Done(pipellm_page(j@)),
            None => ReadStepView::Failed("parse pipellm reader response"@),
        }),
{
    match json {
        Some(j) => ReadStep::Done(pipellm_reader_text(&j)),
        None => ReadStep::Failed("parse pipellm reader response".to_owned()),
    }
}

/// Takes an answer of the pipellm reader.
pub fn next_pipellm_read(failures: usize, reply: Reply) -> (r: ReadStep)
    requires
        failures < usize::MAX,
    ensures
        r@ == after_pipellm(failures as nat, reply),
{
    match reply {
        Reply::Unreachable(_) | Reply::Refused { .. } => ask_pipellm(failures + 1),
        Reply::Unreadable => pipellm_page_step(None),
        Reply::Page(text) => pipellm_page_step(parse_json(text.as_str())),
    }
}

/// What a page that tavily extracted leads to, once it is parsed.
pub fn tavily_page_step(json: Option<JsonValue>) -> (r: ReadStep)
    ensures
        r@ == (match json {
            Some(j) => match tavily_page(j@) {
                Some(page) => ReadStepView::Done(page),
                None => ReadStepView::Fetch,
            },
            None => ReadStepView::Failed("parse tavily extract response"@),
        }),
{
    match json {
        Some(j) => match tavily_extract_text(&j) {
            Some(page) => ReadStep::Done(page),
            None => ReadStep::Fetch,
        },
        None => ReadStep::Failed("parse tavily extract response".to_owned()),
    }
}

/// Takes an answer of tavily.
pub fn next_tavily_read(reply: Reply) -> (r: ReadStep)
    ensures
        r@ == after_tavily(reply),
{
    match reply {
        Reply::Unreachable(_) => ReadStep::Failed("tavily extract request failed".to_owned()),
        Reply::Refused { .. } => ReadStep::Fetch,
        Reply::Unreadable => tavily_page_step(None),
        Reply::Page(text) => tavily_page_step(parse_json(text.as_str())),
    }
}

// ---------------------------------------------------------------------------
// Searches
// ---------------------------------------------------------------------------

/// What to do next about a search.
#[derive(Debug)]
pub enum SearchStep {
    /// Ask the next host, after so many failed.
    AskAgain { base: String, failures: usize },
    Done(String),
    Failed(String),
}

pub enum SearchStepView {
    AskAgain { base: Seq<char>, failures: nat },
    Done(Seq<char>),
    Failed(Seq<char>),
}

impl View for SearchStep {
    type V = SearchStepView;

    open spec fn view(&self) -> SearchStepView {
        match *self {
            SearchStep::AskAgain { base, failures } => SearchStepView::AskAgain {
                base: base@,
                failures: failures as nat,
            },
            SearchStep::Done(text) => SearchStepView::Done(text@),
            SearchStep::Failed(error) => SearchStepView::Failed(error@),
        }
    }
}

pub open spec fn provider_name(provider: SearchProvider) -> Seq<char> {
    match provider {
        SearchProvider::Brave => "brave"@,
        SearchProvider::Pipellm => "pipellm"@,
        SearchProvider::Tavily => "tavily"@,
    }
}

pub open spec fn provider_answer(
    provider: SearchProvider,
    kind: Option<Seq<char>>,
    json: JsonView,
) -> Seq<char> {
    match provider {
        SearchProvider::Brave => brave_answer(json, is_kind(kind, "news"@)),
        SearchProvider::Pipellm => pipellm_answer(json),
        SearchProvider::Tavily => tavily_answer(json),
    }
}

/// What is kept of a host that failed.
pub open spec fn host_error(reply: Reply, base: Seq<char>) -> Seq<char> {
    match reply {
        Reply::Unreachable(error) => error@,
        Reply::Refused { status, body } => status@ + " from "@ + base + ": "@ + prefix_chars(
            body@,
            300,
        ),
        _ => seq![],
    }
}

/// The next host to search on, or the error of the last one.
pub open spec fn search_host_after(failures: nat, error: Seq<char>) -> SearchStepView {
    if failures < pipellm_hosts().len() {
        SearchStepView::AskAgain { base: pipellm_hosts()[failures as int], failures }
    } else {
        SearchStepView::Failed("pipellm search failed: "@ + error)
    }
}

/// What follows the answer of a search provider. Only pipellm has another host
/// to ask.
pub open spec fn after_search(
    provider: SearchProvider,
    kind: Option<Seq<char>>,
    failures: nat,
    reply: Reply,
) -> SearchStepView {
    let unreadable = SearchStepView::Failed(
        "parse "@ + (provider_name(provider) + " response"@),
    );
    match reply {
        Reply::Page(text) => match json_document(text@) {
            Some(json) => SearchStepView::Done(provider_answer(provider, kind, json)),
            None => unreadable,
        },
        Reply::Unreadable => unreadable,
        Reply::Unreachable(error) => if provider == SearchProvider::Pipellm {
            search_host_after(failures + 1, error@)
        } else {
            SearchStepView::Failed(provider_name(provider) + " search request failed"@)
        },
        Reply::Refused { status, body } => if provider == SearchProvider::Pipellm {
            search_host_after(
                failures + 1,
                host_error(reply, pipellm_hosts()[failures as int]),
            )
        } else {
            SearchStepView::Failed(
                provider_name(provider) + " search returned "@ + status@ + ": "@ + prefix_chars(
                    body@,
                    300,
                ),
            )
        },
    }
}

fn name_of(provider: SearchProvider) -> (r: &'static str)
    ensures
        r@ == provider_name(provider),
{
    match provider {
        SearchProvider::Brave => "brave",
        SearchProvider::Pipellm => "pipellm",
        SearchProvider::Tavily => "tavily",
    }
}

/// How an answer reads, once it is parsed.
pub fn search_answer_step(
    provider: SearchProvider,
    kind: Option<&str>,
    json: Option<JsonValue>,
) -> (r: SearchStep)
    ensures
        r@ == (match json {
            Some(j) => SearchStepView::Done(provider_answer(provider, opt_str(kind), j@)),
            None => SearchStepView::Failed("parse "@ + (provider_name(provider) + " response"@)),
        }),
{
    match json {
        Some(j) => SearchStep::Done(
            match provider {
                SearchProvider::Brave => render_brave(&j, kind),
                SearchProvider::Pipellm => render_pipellm(&j),
                SearchProvider::Tavily => render_tavily(&j),
            },
        ),
        None => {
            let tail = concat2(name_of(provider), " response");
            SearchStep::Failed(concat2("parse ", tail.as_str()))
        },
    }
}

fn next_host(failures: usize, error: &str) -> (r: SearchStep)
    ensures
        r@ == search_host_after(failures as nat, error@),
{
    match pipellm_base(failures) {
        Some(base) => SearchStep::AskAgain { base: base.to_owned(), failures },
        None => SearchStep::Failed(pipellm_failure(error)),
    }
}

/// Takes the answer of a search provider.
pub fn next_search(
    provider: SearchProvider,
    kind: Option<&str>,
    failures: usize,
    reply: Reply,
) -> (r: SearchStep)
    requires
        failures < pipellm_hosts().len(),
    ensures
        r@ == after_search(provider, opt_str(kind), failures as nat, reply),
{
    match reply {
        Reply::Page(text) => search_answer_step(provider, kind, parse_json(text.as_str())),
        Reply::Unreadable => search_answer_step(provider, kind, None),
        Reply::Unreachable(error) => if provider == SearchProvider::Pipellm {
            next_host(failures + 1, error.as_str())
        } else {
            SearchStep::Failed(concat2(name_of(provider), " search request failed"))
        },
        Reply::Refused { status, body } => if provider == SearchProvider::Pipellm {
            let base = match pipellm_base(failures) {
                Some(base) => base,
                None => "",
            };
            let error = host_refusal(status.as_str(), base, body.as_str());
            next_host(failures + 1, error.as_str())
        } else {
            SearchStep::Failed(
                provider_refusal(name_of(provider), status.as_str(), body.as_str()),
            )
        },
    }
}

/// A search or a read asks each host at most once: whatever the answers are,
/// another request follows only where fewer hosts failed than there are.
pub proof fn hosts_are_asked_once(
    provider: SearchProvider,
    kind: Option<Seq<char>>,
    failures: nat,
    reply: Reply,
)
    ensures
        after_search(provider, kind, failures, reply) matches SearchStepView::AskAgain {
            failures: n,
            ..
        } ==> n == failures + 1 && n < pipellm_hosts().len(),
        after_pipellm(failures, reply) matches ReadStepView::Pipellm { failures: n, .. } ==> n
            == failures + 1 && n < pipellm_hosts().len(),
{
}

} // verus!
