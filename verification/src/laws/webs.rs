//! The web tools: what providers are asked, how their answers read, and how
//! pages and responses are shown.
use crate::json::{JsonView, field_of, items_of, listed_field, json_document, text_of};
use crate::laws::searches::lemma_joined_holds;
use crate::laws::{holds, lemma_held_in_part, lemma_stands_between, stands_at};
use crate::reading::{
    FetchStepView, ReadStepView, Reply, SearchStepView, after_first_source, after_pipellm,
    after_search, after_second_source, after_tavily, first_reader,
};
use crate::registry::AssistantConfig;
use crate::text::{decimal, joined, lowered, opt_view, trimmed, utf8_len};
use crate::web::{
    HttpMethod, header_lines, method_of, pipellm_page, response_text, sent_headers, shown_header,
    summarizer, tavily_page, text_pairs,
};
use crate::web_search::{
    SearchErrorView, SearchProvider, brave_answer, brave_items, brave_listing, brave_params,
    brave_result, freshness_days, pipellm_answer, pipellm_hosts, pipellm_items, pipellm_listing,
    pipellm_path_of, pipellm_result, search_request, snippet_lines, tavily_answer, tavily_items,
    tavily_lead, tavily_listing, tavily_request, tavily_result,
};
use vstd::prelude::*;
use vstd::string::*;

verus! {

// ---------------------------------------------------------------------------
// What is asked
// ---------------------------------------------------------------------------

/// A web search asks the provider that is configured, with its key, for what the
/// call asks for; it is refused for the first thing that is missing.
pub proof fn searches_ask_the_configured_provider(args: JsonView, config: AssistantConfig)
    ensures
        match search_request(args, config) {
            Ok(s) => {
                &&& text_of(field_of(args, "query"@)) == Some(s.query)
                &&& opt_view(config.web_search_api_key) == Some(s.api_key)
                &&& opt_view(config.web_search_provider) == Some(
                    match s.provider {
                        SearchProvider::Brave => "brave"@,
                        SearchProvider::Pipellm => "pipellm"@,
                        SearchProvider::Tavily => "tavily"@,
                    },
                )
                &&& s.kind == text_of(field_of(args, "kind"@))
                &&& s.freshness == text_of(field_of(args, "freshness"@))
                &&& s.search_depth == text_of(field_of(args, "search_depth"@))
            },
            Err(e) => {
                &&& e is MissingQuery <==> text_of(field_of(args, "query"@)) is None
                &&& e is NoProvider ==> config.web_search_provider is None
                &&& e is NoApiKey ==> config.web_search_api_key is None
                &&& e matches SearchErrorView::UnknownProvider(name) ==> (opt_view(
                    config.web_search_provider,
                ) == Some(name) && name != "brave"@ && name != "pipellm"@ && name != "tavily"@)
            },
        },
{
}

/// Brave is asked for the query, for ten results with snippets, and for the
/// freshness where one is wanted.
pub proof fn brave_is_asked_for_the_query(query: Seq<char>, fresh: Seq<char>)
    ensures
        brave_params(query, None) == seq![
            ("q"@, query),
            ("count"@, "10"@),
            ("extra_snippets"@, "true"@),
        ],
        brave_params(query, Some(fresh)) == brave_params(query, None).push(("freshness"@, fresh)),
{
}

/// Tavily is asked for the query, and for topic, depth and age where they are
/// wanted; a kind that it has no topic for is left out.
pub proof fn tavily_is_asked_for_the_query(
    query: Seq<char>,
    kind: Option<Seq<char>>,
    freshness: Option<Seq<char>>,
    depth: Option<Seq<char>>,
)
    ensures
        ({
            let body = tavily_request(query, kind, freshness, depth);
            &&& field_of(body, "query"@) == Some(JsonView::Text(query))
            &&& field_of(body, "include_answer"@) == Some(JsonView::Bool(true))
            &&& text_of(field_of(body, "search_depth"@)) == depth
            &&& text_of(field_of(body, "topic"@)) == (if kind == Some("news"@) || kind == Some(
                "finance"@,
            ) {
                kind
            } else {
                None
            })
            &&& field_of(body, "days"@) is Some <==> freshness is Some
        }),
{
    reveal_strlit("query");
    reveal_strlit("max_results");
    reveal_strlit("include_answer");
    reveal_strlit("topic");
    reveal_strlit("search_depth");
    reveal_strlit("days");
    assert("query"@.len() == 5 && "max_results"@.len() == 11 && "include_answer"@.len() == 14
        && "topic"@.len() == 5 && "search_depth"@.len() == 12 && "days"@.len() == 4);
    assert("query"@[0] == 'q' && "topic"@[0] == 't');
    if let JsonView::Object(fields) = tavily_request(query, kind, freshness, depth) {
        lemma_listed(fields, "query"@);
        lemma_listed(fields, "include_answer"@);
        lemma_listed(fields, "search_depth"@);
        lemma_listed(fields, "topic"@);
        lemma_listed(fields, "days"@);
        assert(fields[0].0 == "query"@ && fields[1].0 == "max_results"@ && fields[2].0
            == "include_answer"@);
        let t: int = if kind == Some("news"@) || kind == Some("finance"@) {
            1
        } else {
            0
        };
        let d: int = if depth is Some {
            1
        } else {
            0
        };
        let f: int = if freshness is Some {
            1
        } else {
            0
        };
        assert(fields.len() == 3 + t + d + f);
        if t == 1 {
            assert(fields[3] == ("topic"@, JsonView::Text(kind->0)));
        }
        if d == 1 {
            assert(fields[3 + t] == ("search_depth"@, JsonView::Text(depth->0)));
        }
        if f == 1 {
            assert(fields[3 + t + d].0 == "days"@);
        }
    }
}

/// A field is found where its key stands first; there is none where its key does
/// not occur.
proof fn lemma_listed(fields: Seq<(Seq<char>, JsonView)>, key: Seq<char>)
    ensures
        match listed_field(fields, key) {
            Some(v) => exists|i: int|
                0 <= i < fields.len() && (#[trigger] fields[i]).0 == key && fields[i].1 == v,
            None => forall|i: int| 0 <= i < fields.len() ==> (#[trigger] fields[i]).0 != key,
        },
    decreases fields.len(),
{
    if fields.len() > 0 {
        if fields[0].0 == key {
        } else {
            let rest = fields.drop_first();
            lemma_listed(rest, key);
            match listed_field(rest, key) {
                Some(v) => {
                    let i = choose|i: int|
                        0 <= i < rest.len() && (#[trigger] rest[i]).0 == key && rest[i].1 == v;
                    assert(fields[i + 1] == rest[i]);
                },
                None => {
                    assert forall|i: int| 0 <= i < fields.len() implies (#[trigger] fields[i]).0
                        != key by {
                        if i > 0 {
                            assert(rest[i - 1] == fields[i]);
                        }
                    }
                },
            }
        }
    }
}

/// A search for news or a deep one has its own place at pipellm, any other kind
/// the simple one; how fresh results must be is counted in days.
pub proof fn kinds_and_ages_are_translated(kind: Seq<char>)
    ensures
        pipellm_path_of(Some("news"@)) == "v1/websearch/search-news"@,
        pipellm_path_of(Some("deep"@)) == "v1/websearch/search"@,
        kind != "news"@ && kind != "deep"@ ==> pipellm_path_of(Some(kind))
            == "v1/websearch/simple-search"@,
        pipellm_path_of(None) == "v1/websearch/simple-search"@,
        freshness_days("pd"@) == 1 && freshness_days("pw"@) == 7 && freshness_days("pm"@) == 31
            && freshness_days("py"@) == 365,
{
    reveal_strlit("news");
    reveal_strlit("deep");
    reveal_strlit("pd");
    reveal_strlit("pw");
    reveal_strlit("pm");
    reveal_strlit("py");
    assert("news"@[0] != "deep"@[0]);
    assert("pd"@[1] == 'd' && "pw"@[1] == 'w' && "pm"@[1] == 'm' && "py"@[1] == 'y');
}

// ---------------------------------------------------------------------------
// How answers read
// ---------------------------------------------------------------------------

/// A result as it is listed: its title, its address and its text.
pub open spec fn listed_result(title: Seq<char>, url: Seq<char>, text: Seq<char>) -> Seq<char> {
    "- **"@ + title + "** <"@ + url + ">\n  "@ + text + "\n"@
}

/// What a field of a result says, or what stands for it where it says nothing.
pub open spec fn said(r: JsonView, key: Seq<char>, default: Seq<char>) -> Seq<char> {
    match text_of(field_of(r, key)) {
        Some(t) => t,
        None => default,
    }
}

pub open spec fn said_either(r: JsonView, a: Seq<char>, b: Seq<char>) -> Seq<char> {
    match text_of(field_of(r, a)) {
        Some(t) => t,
        None => said(r, b, ""@),
    }
}

proof fn lemma_brave(items: Seq<JsonView>, i: int, n: nat)
    requires
        0 <= i < n <= items.len(),
    ensures
        stands_at(
            brave_listing(items, n),
            brave_result(items[i]),
            brave_listing(items, i as nat).len() as int,
        ),
    decreases n,
{
    let all = brave_listing(items, n);
    let before = brave_listing(items, (n - 1) as nat);
    let one = brave_result(items[i]);
    if i == n - 1 {
        assert(all.subrange(before.len() as int, (before.len() + one.len()) as int) =~= one);
    } else {
        lemma_brave(items, i, (n - 1) as nat);
        let at = brave_listing(items, i as nat).len() as int;
        assert(all.subrange(at, at + one.len()) =~= before.subrange(at, at + one.len()));
    }
}

proof fn lemma_pipellm(items: Seq<JsonView>, i: int, n: nat)
    requires
        0 <= i < n <= items.len(),
    ensures
        stands_at(
            pipellm_listing(items, n),
            pipellm_result(items[i]),
            pipellm_listing(items, i as nat).len() as int,
        ),
    decreases n,
{
    let all = pipellm_listing(items, n);
    let before = pipellm_listing(items, (n - 1) as nat);
    let one = pipellm_result(items[i]);
    if i == n - 1 {
        assert(all.subrange(before.len() as int, (before.len() + one.len()) as int) =~= one);
    } else {
        lemma_pipellm(items, i, (n - 1) as nat);
        let at = pipellm_listing(items, i as nat).len() as int;
        assert(all.subrange(at, at + one.len()) =~= before.subrange(at, at + one.len()));
    }
}

proof fn lemma_tavily(items: Seq<JsonView>, i: int, n: nat)
    requires
        0 <= i < n <= items.len(),
    ensures
        stands_at(
            tavily_listing(items, n),
            tavily_result(items[i]),
            tavily_listing(items, i as nat).len() as int,
        ),
    decreases n,
{
    let all = tavily_listing(items, n);
    let before = tavily_listing(items, (n - 1) as nat);
    let one = tavily_result(items[i]);
    if i == n - 1 {
        assert(all.subrange(before.len() as int, (before.len() + one.len()) as int) =~= one);
    } else {
        lemma_tavily(items, i, (n - 1) as nat);
        let at = tavily_listing(items, i as nat).len() as int;
        assert(all.subrange(at, at + one.len()) =~= before.subrange(at, at + one.len()));
    }
}

/// Each of the first ten results of brave is listed with its title, its address
/// and its description; without any, that is said.
pub proof fn brave_results_are_listed(json: JsonView, news: bool, i: int)
    ensures
        ({
            let items = brave_items(json, news);
            &&& items.len() == 0 ==> brave_answer(json, news) == "No results found."@
            &&& 0 <= i < items.len() && i < 10 ==> holds(
                brave_answer(json, news),
                listed_result(
                    said(items[i], "title"@, "(no title)"@),
                    said(items[i], "url"@, ""@),
                    said(items[i], "description"@, ""@),
                ),
            )
            &&& items.len() > 10 ==> brave_answer(json, news) == brave_listing(items.take(10), 10)
        }),
{
    let items = brave_items(json, news);
    if 0 <= i < items.len() && i < 10 {
        let n = if items.len() <= 10 {
            items.len()
        } else {
            10
        };
        lemma_brave(items, i, n);
        let line = listed_result(
            said(items[i], "title"@, "(no title)"@),
            said(items[i], "url"@, ""@),
            said(items[i], "description"@, ""@),
        );
        let one = brave_result(items[i]);
        assert(one.subrange(0, line.len() as int) =~= line);
        assert(stands_at(one, line, 0));
        lemma_held_in_part(
            brave_answer(json, news),
            one,
            line,
            brave_listing(items, i as nat).len() as int,
        );
    }
    if items.len() > 10 {
        lemma_brave_same(items, items.take(10), 10);
    }
}

proof fn lemma_brave_same(a: Seq<JsonView>, b: Seq<JsonView>, n: nat)
    requires
        n <= a.len(),
        n <= b.len(),
        forall|i: int| 0 <= i < n ==> #[trigger] a[i] == b[i],
    ensures
        brave_listing(a, n) == brave_listing(b, n),
    decreases n,
{
    if n > 0 {
        lemma_brave_same(a, b, (n - 1) as nat);
        assert(a[n - 1] == b[n - 1]);
    }
}

/// Each of the first ten results of pipellm is listed, by its link and snippet or
/// what it has in their place.
pub proof fn pipellm_results_are_listed(json: JsonView, i: int)
    ensures
        ({
            let items = pipellm_items(json);
            &&& items.len() == 0 ==> pipellm_answer(json) == "No results found."@
            &&& 0 <= i < items.len() && i < 10 ==> holds(
                pipellm_answer(json),
                listed_result(
                    said(items[i], "title"@, "(no title)"@),
                    said_either(items[i], "link"@, "url"@),
                    said_either(items[i], "snippet"@, "content"@),
                ),
            )
        }),
{
    let items = pipellm_items(json);
    if 0 <= i < items.len() && i < 10 {
        let n = if items.len() <= 10 {
            items.len()
        } else {
            10
        };
        lemma_pipellm(items, i, n);
        assert(stands_at(
            pipellm_answer(json),
            pipellm_result(items[i]),
            pipellm_listing(items, i as nat).len() as int,
        ));
    }
}

/// The answer of tavily comes first, where it gives one; each of its first ten
/// results is listed behind it.
pub proof fn tavily_results_are_listed(json: JsonView, i: int)
    ensures
        ({
            let items = tavily_items(json);
            let answer = text_of(field_of(json, "answer"@));
            &&& answer matches Some(a) ==> (a.len() > 0 ==> ("**Answer:** "@ + a
                + "\n\n"@).is_prefix_of(tavily_answer(json)))
            &&& items.len() == 0 && (answer is None || answer == Some(Seq::<char>::empty()))
                ==> tavily_answer(json) == "No results found."@
            &&& 0 <= i < items.len() && i < 10 ==> holds(
                tavily_answer(json),
                listed_result(
                    said(items[i], "title"@, "(no title)"@),
                    said(items[i], "url"@, ""@),
                    said(items[i], "content"@, ""@),
                ),
            )
        }),
{
    let items = tavily_items(json);
    let n = if items.len() <= 10 {
        items.len()
    } else {
        10
    };
    let lead = tavily_lead(json);
    let list = tavily_listing(items, n);
    let text = tavily_answer(json);
    reveal_strlit("**Answer:** ");
    if items.len() > 0 || lead.len() > 0 {
        assert(text =~= lead + list);
        assert(text.subrange(0, lead.len() as int) =~= lead);
    }
    if 0 <= i < items.len() && i < 10 {
        lemma_tavily(items, i, n);
        let one = tavily_result(items[i]);
        let at = tavily_listing(items, i as nat).len() as int;
        assert(text.subrange(lead.len() + at, lead.len() + at + one.len()) =~= list.subrange(
            at,
            at + one.len(),
        ));
        assert(stands_at(text, one, lead.len() + at));
    }
}

/// Snippets of a result are quoted behind it, at most three.
pub proof fn snippets_are_quoted(items: Seq<JsonView>, i: int, n: nat)
    requires
        0 <= i < n <= items.len(),
        items[i] is Text,
    ensures
        holds(snippet_lines(items, n), "  > "@ + items[i]->Text_0 + "\n"@),
    decreases n,
{
    let all = snippet_lines(items, n);
    let before = snippet_lines(items, (n - 1) as nat);
    let line = "  > "@ + items[i]->Text_0 + "\n"@;
    if i == n - 1 {
        assert(all =~= before + line + Seq::<char>::empty());
        lemma_stands_between(before, line, seq![]);
    } else {
        snippets_are_quoted(items, i, (n - 1) as nat);
        assert(all.subrange(0, before.len() as int) =~= before);
        assert(stands_at(all, before, 0));
        lemma_held_in_part(all, before, line, 0);
    }
}

// ---------------------------------------------------------------------------
// Requests and responses
// ---------------------------------------------------------------------------

/// Every header and parameter with a text is sent, in order; others are left
/// out. A body that is JSON is announced as such, and no other is.
pub proof fn fields_with_texts_are_sent(
    fields: Seq<(Seq<char>, JsonView)>,
    asked: Seq<(Seq<char>, Seq<char>)>,
    i: int,
)
    ensures
        0 <= i < fields.len() && fields[i].1 is Text ==> text_pairs(fields).contains(
            (fields[i].0, fields[i].1->Text_0),
        ),
        text_pairs(fields).len() == fields.filter(
            |f: (Seq<char>, JsonView)| f.1 is Text,
        ).len(),
        sent_headers(asked, false) == asked,
        sent_headers(asked, true) == asked + seq![("Content-Type"@, "application/json"@)],
{
    assert(asked.push(("Content-Type"@, "application/json"@)) =~= asked + seq![
        ("Content-Type"@, "application/json"@),
    ]);
    lemma_pairs(fields);
    if 0 <= i < fields.len() && fields[i].1 is Text {
        lemma_pair_kept(fields, i);
    }
}

proof fn lemma_pairs(fields: Seq<(Seq<char>, JsonView)>)
    ensures
        text_pairs(fields).len() == fields.filter(
            |f: (Seq<char>, JsonView)| f.1 is Text,
        ).len(),
    decreases fields.len(),
{
    reveal(Seq::filter);
    if fields.len() > 0 {
        lemma_pairs(fields.drop_last());
    }
}

proof fn lemma_pair_kept(fields: Seq<(Seq<char>, JsonView)>, i: int)
    requires
        0 <= i < fields.len(),
        fields[i].1 is Text,
    ensures
        text_pairs(fields).contains((fields[i].0, fields[i].1->Text_0)),
    decreases fields.len(),
{
    let rest = fields.drop_last();
    let before = text_pairs(rest);
    let pair = (fields[i].0, fields[i].1->Text_0);
    if i < rest.len() {
        lemma_pair_kept(rest, i);
        let k = choose|k: int| 0 <= k < before.len() && before[k] == pair;
        assert(text_pairs(fields)[k] == pair);
    } else {
        assert(text_pairs(fields)[before.len() as int] == pair);
    }
}

/// Each method is asked for under its own name, and no other is known.
pub proof fn methods_go_by_name(name: Seq<char>)
    ensures
        method_of("GET"@) == Some(HttpMethod::Get),
        method_of("POST"@) == Some(HttpMethod::Post),
        method_of("PUT"@) == Some(HttpMethod::Put),
        method_of("PATCH"@) == Some(HttpMethod::Patch),
        method_of("DELETE"@) == Some(HttpMethod::Delete),
        method_of(name) is Some <==> name == "GET"@ || name == "POST"@ || name == "PUT"@ || name
            == "PATCH"@ || name == "DELETE"@,
{
    reveal_strlit("GET");
    reveal_strlit("POST");
    reveal_strlit("PUT");
    reveal_strlit("PATCH");
    reveal_strlit("DELETE");
    assert("GET"@[0] == 'G' && "POST"@[1] == 'O' && "PUT"@[1] == 'U' && "PATCH"@[1] == 'A'
        && "DELETE"@[0] == 'D' && "POST"@[0] == 'P' && "PUT"@[0] == 'P' && "PATCH"@[0] == 'P');
}

/// A response is shown with its status first, then the headers that say how to
/// read it, and its whole body last.
pub proof fn responses_show_status_headers_and_body(
    status: nat,
    headers: Seq<(Seq<char>, Seq<char>)>,
    body: Seq<char>,
    i: int,
)
    ensures
        ("HTTP "@ + decimal(status) + "\n"@).is_prefix_of(response_text(status, headers, body)),
        ("\n"@ + body).is_suffix_of(response_text(status, headers, body)),
        0 <= i < headers.len() && (lowered(headers[i].0) == "content-type"@ || lowered(
            headers[i].0,
        ) == "content-length"@ || lowered(headers[i].0) == "x-request-id"@ || lowered(headers[i].0)
            == "x-ratelimit-remaining"@) ==> holds(
            response_text(status, headers, body),
            headers[i].0 + ": "@ + headers[i].1,
        ),
        headers.len() == 0 ==> response_text(status, headers, body) == "HTTP "@ + decimal(status)
            + "\n\n"@ + body,
{
    let text = response_text(status, headers, body);
    let head = "HTTP "@ + decimal(status) + "\n"@;
    let lines = header_lines(headers);
    let mid = if lines.len() > 0 {
        joined(lines, "\n"@) + "\n"@
    } else {
        seq![]
    };
    let end = "\n"@ + body;
    assert(text =~= head + mid + end);
    assert(text.subrange(0, head.len() as int) =~= head);
    assert(text.subrange(text.len() - end.len(), text.len() as int) =~= end);
    if 0 <= i < headers.len() && shown_header(headers[i].0) {
        lemma_header_line(headers, i);
        let line = headers[i].0 + ": "@ + headers[i].1;
        let k = choose|k: int| 0 <= k < lines.len() && lines[k] == line;
        lemma_joined_holds(lines, "\n"@, k);
        let all = joined(lines, "\n"@);
        assert(text =~= head + all + ("\n"@ + end));
        lemma_stands_between(head, all, "\n"@ + end);
        lemma_held_in_part(text, all, line, head.len() as int);
    }
    reveal_strlit("\n");
    reveal_strlit("\n\n");
    if headers.len() == 0 {
        assert(text =~= "HTTP "@ + decimal(status) + "\n\n"@ + body);
    }
}

proof fn lemma_header_line(headers: Seq<(Seq<char>, Seq<char>)>, i: int)
    requires
        0 <= i < headers.len(),
        shown_header(headers[i].0),
    ensures
        header_lines(headers).contains(headers[i].0 + ": "@ + headers[i].1),
    decreases headers.len(),
{
    let rest = headers.drop_last();
    let before = header_lines(rest);
    let line = headers[i].0 + ": "@ + headers[i].1;
    if i < rest.len() {
        lemma_header_line(rest, i);
        let k = choose|k: int| 0 <= k < before.len() && before[k] == line;
        assert(header_lines(headers)[k] == line);
    } else {
        assert(header_lines(headers)[before.len() as int] == line);
    }
}

/// Only headers that say how to read the response are shown, whatever else came
/// with it.
pub proof fn other_headers_stay_hidden(headers: Seq<(Seq<char>, Seq<char>)>, name: Seq<char>, value: Seq<char>)
    requires
        lowered(name) != "content-type"@,
        lowered(name) != "content-length"@,
        lowered(name) != "x-request-id"@,
        lowered(name) != "x-ratelimit-remaining"@,
    ensures
        header_lines(headers.push((name, value))) == header_lines(headers),
{
    assert(headers.push((name, value)).drop_last() =~= headers);
}

// ---------------------------------------------------------------------------
// Pages
// ---------------------------------------------------------------------------

/// A page that is long enough is summarized, by the fast model where there is
/// one; never where it is wanted as it is, or where there is no model.
pub proof fn long_pages_are_summarized(
    content: Seq<char>,
    raw: bool,
    fast: Option<Seq<char>>,
    chat: Seq<char>,
)
    ensures
        raw ==> summarizer(content, raw, fast, chat) is None,
        utf8_len(content) < 4000 ==> summarizer(content, raw, fast, chat) is None,
        !raw && utf8_len(content) >= 4000 ==> ({
            &&& fast matches Some(m) ==> (m.len() > 0 ==> summarizer(content, raw, fast, chat)
                == Some(m))
            &&& fast is None && chat.len() > 0 ==> summarizer(content, raw, fast, chat) == Some(
                chat,
            )
            &&& fast == Some(Seq::<char>::empty()) && chat.len() > 0 ==> summarizer(
                content,
                raw,
                fast,
                chat,
            ) == Some(chat)
        }),
{
}

/// A page comes from the first source that has it, word for word; the second
/// source is asked only where the first has nothing, and only a page of its own
/// ends a fetch well.
pub proof fn pages_come_from_the_first_source_that_has_them(
    url: Seq<char>,
    text: String,
    reply: Reply,
)
    ensures
        trimmed(text@).len() > 0 ==> after_first_source(url, Reply::Page(text))
            == FetchStepView::Done(text@),
        trimmed(text@).len() == 0 ==> after_first_source(url, Reply::Page(text))
            == FetchStepView::Get("https://r.jina.ai/"@ + url),
        !(reply is Page) ==> after_first_source(url, reply) == FetchStepView::Get(
            "https://r.jina.ai/"@ + url,
        ),
        after_second_source(Reply::Page(text)) == FetchStepView::Done(text@),
        !(reply is Page) ==> after_second_source(reply) is Failed,
        reply matches Reply::Refused { status, body } ==> (after_second_source(reply)
            matches FetchStepView::Failed(e) && holds(e, status@)),
{
    if let Reply::Refused { status, body } = reply {
        lemma_stands_between(
            "fetch failed: defuddle.md and r.jina.ai both returned non-2xx (last: "@,
            status@,
            ")"@,
        );
    }
}

/// A provider's reader hands on the text of the page; where it has none, or
/// refuses, the page is fetched or the next host is asked.
pub proof fn readers_hand_on_the_page(json: JsonView, text: String, failures: nat)
    ensures
        text_of(field_of(json, "content"@)) matches Some(t) ==> (trimmed(t).len() > 0
            ==> pipellm_page(json) == t),
        text_of(field_of(json, "content"@)) is None ==> (text_of(field_of(json, "text"@))
            matches Some(t) ==> (trimmed(t).len() > 0 ==> pipellm_page(json) == t)),
        json_document(text@) == Some(json) ==> after_pipellm(failures, Reply::Page(text))
            == ReadStepView::Done(pipellm_page(json)),
        json_document(text@) == Some(json) ==> (match tavily_page(json) {
            Some(page) => after_tavily(Reply::Page(text)) == ReadStepView::Done(page),
            None => after_tavily(Reply::Page(text)) == ReadStepView::Fetch,
        }),
        items_of(field_of(json, "results"@)) matches Some(items) ==> (items.len() > 0 ==> (text_of(
            field_of(items[0], "raw_content"@),
        ) matches Some(t) ==> (trimmed(t).len() > 0 ==> tavily_page(json) == Some(t)))),
        first_reader("tavily"@) == ReadStepView::Tavily,
        first_reader("pipellm"@) is Pipellm,
        first_reader("brave"@) == ReadStepView::Fetch,
{
    reveal_strlit("tavily");
    reveal_strlit("pipellm");
    reveal_strlit("brave");
    assert("tavily"@[0] == 't' && "pipellm"@[0] == 'p' && "brave"@[0] == 'b');
}

/// Pipellm is asked on its second host after the first failed, and fails only
/// after both did; the other providers have one host.
pub proof fn the_second_host_is_asked_after_the_first(
    provider: SearchProvider,
    kind: Option<Seq<char>>,
    error: String,
    status: String,
    body: String,
)
    ensures
        pipellm_hosts() == seq!["https://api.pipellm.ai"@, "https://api.pipellm.com"@],
        after_search(SearchProvider::Pipellm, kind, 0, Reply::Unreachable(error)) == (
        SearchStepView::AskAgain { base: "https://api.pipellm.com"@, failures: 1 }),
        after_search(SearchProvider::Pipellm, kind, 1, Reply::Unreachable(error))
            == SearchStepView::Failed("pipellm search failed: "@ + error@),
        provider != SearchProvider::Pipellm ==> after_search(
            provider,
            kind,
            0,
            Reply::Unreachable(error),
        ) is Failed,
        provider != SearchProvider::Pipellm ==> (after_search(
            provider,
            kind,
            0,
            Reply::Refused { status, body },
        ) matches SearchStepView::Failed(e) && holds(e, status@)),
{
    if provider != SearchProvider::Pipellm {
        let front = crate::reading::provider_name(provider) + " search returned "@;
        let back = ": "@ + crate::text::prefix_chars(body@, 300);
        lemma_stands_between(front, status@, back);
        let e = after_search(provider, kind, 0, Reply::Refused { status, body })->Failed_0;
        assert(e =~= front + status@ + back);
    }
}

} // verus!
