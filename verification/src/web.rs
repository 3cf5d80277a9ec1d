//! HTTP fetch and web-request decisions: which destinations are allowed, what
//! is sent, and how a response reads.
use crate::json::{
    JsonField, JsonValue, JsonView, field_of, field_views, is_json, items_of, json_document,
    json_pretty, json_views, opt_str, prettify_json, text_of,
};
use crate::net::{
    BitsView, HostView, IpAddress, ParsedUrl, UrlHost, UrlView, is_public, opt_url, parse_url,
    public_bits, url_parts,
};
use crate::text::{
    chars_of, concat2, concat3, decimal, decimal_of, encoded_len, ends_with, join, joined, lowered,
    opt_view, replace_text, same, starts_with, string_of_range, text_replaced, to_ascii_lowercase,
    trim, trimmed, utf8_len, views,
};
use vstd::prelude::*;
use vstd::string::*;

verus! {

/// Maximum bytes to buffer from any single HTTP fetch response.
pub const MAX_FETCH_BYTES: usize = 524_288;

// ---------------------------------------------------------------------------
// Destinations
// ---------------------------------------------------------------------------

/// Why a request is not made.
#[derive(Debug)]
pub enum HttpError {
    InvalidUrl,
    UnsupportedScheme,
    Credentials,
    NoPort,
    MissingHost,
    Loopback,
    DotLocal,
    /// The address, as it prints.
    NonPublic(String),
    /// The host that does not resolve.
    Unresolved(String),
    NoAddresses(String),
    UnsupportedMethod(String),
}

pub enum HttpErrorView {
    InvalidUrl,
    UnsupportedScheme,
    Credentials,
    NoPort,
    MissingHost,
    Loopback,
    DotLocal,
    NonPublic(Seq<char>),
    Unresolved(Seq<char>),
    NoAddresses(Seq<char>),
    UnsupportedMethod(Seq<char>),
}

impl View for HttpError {
    type V = HttpErrorView;

    open spec fn view(&self) -> HttpErrorView {
        match *self {
            HttpError::InvalidUrl => HttpErrorView::InvalidUrl,
            HttpError::UnsupportedScheme => HttpErrorView::UnsupportedScheme,
            HttpError::Credentials => HttpErrorView::Credentials,
            HttpError::NoPort => HttpErrorView::NoPort,
            HttpError::MissingHost => HttpErrorView::MissingHost,
            HttpError::Loopback => HttpErrorView::Loopback,
            HttpError::DotLocal => HttpErrorView::DotLocal,
            HttpError::NonPublic(a) => HttpErrorView::NonPublic(a@),
            HttpError::Unresolved(h) => HttpErrorView::Unresolved(h@),
            HttpError::NoAddresses(h) => HttpErrorView::NoAddresses(h@),
            HttpError::UnsupportedMethod(m) => HttpErrorView::UnsupportedMethod(m@),
        }
    }
}

pub open spec fn http_error_text(e: HttpErrorView) -> Seq<char> {
    match e {
        HttpErrorView::InvalidUrl => "invalid http_request URL"@,
        HttpErrorView::UnsupportedScheme => "http_request URL must use http or https"@,
        HttpErrorView::Credentials => "http_request URL must not contain credentials"@,
        HttpErrorView::NoPort => "http_request URL has no usable port"@,
        HttpErrorView::MissingHost => "http_request URL is missing a host"@,
        HttpErrorView::Loopback => "http_request refuses loopback destinations"@,
        HttpErrorView::DotLocal => "http_request refuses .local destinations"@,
        HttpErrorView::NonPublic(a) => "http_request refuses non-public destination `"@ + a + "`"@,
        HttpErrorView::Unresolved(h) => "resolve http_request host `"@ + h + "`"@,
        HttpErrorView::NoAddresses(h) => "http_request host `"@ + h
            + "` resolved to no addresses"@,
        HttpErrorView::UnsupportedMethod(m) => "unsupported HTTP method: "@ + m,
    }
}

impl HttpError {
    pub fn message(&self) -> (r: String)
        ensures
            r@ == http_error_text(self@),
    {
        match self {
            HttpError::InvalidUrl => "invalid http_request URL".to_owned(),
            HttpError::UnsupportedScheme => "http_request URL must use http or https".to_owned(),
            HttpError::Credentials => "http_request URL must not contain credentials".to_owned(),
            HttpError::NoPort => "http_request URL has no usable port".to_owned(),
            HttpError::MissingHost => "http_request URL is missing a host".to_owned(),
            HttpError::Loopback => "http_request refuses loopback destinations".to_owned(),
            HttpError::DotLocal => "http_request refuses .local destinations".to_owned(),
            HttpError::NonPublic(a) => concat3(
                "http_request refuses non-public destination `",
                a.as_str(),
                "`",
            ),
            HttpError::Unresolved(h) => concat3("resolve http_request host `", h.as_str(), "`"),
            HttpError::NoAddresses(h) => concat3(
                "http_request host `",
                h.as_str(),
                "` resolved to no addresses",
            ),
            HttpError::UnsupportedMethod(m) => concat2("unsupported HTTP method: ", m.as_str()),
        }
    }
}

/// Where a request goes, before names are looked up.
#[derive(Debug)]
pub enum HttpDestination {
    /// An address that is written out in the URL.
    Address(IpAddress, u16),
    /// A name that has to be looked up, and whose addresses have to be judged.
    Name(String, u16),
}

pub enum DestinationView {
    Address(BitsView, Seq<char>, u16),
    Name(Seq<char>, u16),
}

impl View for HttpDestination {
    type V = DestinationView;

    open spec fn view(&self) -> DestinationView {
        match *self {
            HttpDestination::Address(a, port) => DestinationView::Address(a.bits@, a.text@, port),
            HttpDestination::Name(name, port) => DestinationView::Name(name@, port),
        }
    }
}

/// A text without the dots that end it: `trim_end_matches('.')`.
pub open spec fn without_end(s: Seq<char>, c: char) -> Seq<char>
    decreases s.len(),
{
    if s.len() > 0 && s.last() == c {
        without_end(s.drop_last(), c)
    } else {
        s
    }
}

/// `str::trim_end_matches` for a character.
pub fn trim_end_char(s: &str, c: char) -> (r: String)
    ensures
        r@ == without_end(s@, c),
{
    let cs = chars_of(s);
    let mut to: usize = cs.len();
    assert(s@.subrange(0, to as int) =~= s@);
    while to > 0 && cs[to - 1] == c
        invariant
            to <= cs.len(),
            cs@ == s@,
            without_end(s@, c) == without_end(s@.subrange(0, to as int), c),
        decreases to,
    {
        assert(s@.subrange(0, to as int).drop_last() =~= s@.subrange(0, to - 1));
        to -= 1;
    }
    string_of_range(&cs, 0, to)
}

pub open spec fn named_or_below(host: Seq<char>, name: Seq<char>, suffix: Seq<char>) -> bool {
    host == name || suffix.is_suffix_of(host)
}

/// The destination of a URL, or why it is refused.
pub open spec fn destination_of(url: Option<UrlView>) -> Result<DestinationView, HttpErrorView> {
    match url {
        None => Err(HttpErrorView::InvalidUrl),
        Some(u) => if u.scheme != "http"@ && u.scheme != "https"@ {
            Err(HttpErrorView::UnsupportedScheme)
        } else if u.username.len() > 0 || u.has_password {
            Err(HttpErrorView::Credentials)
        } else {
            match u.port {
                None => Err(HttpErrorView::NoPort),
                Some(port) => match u.host {
                    HostView::Missing => Err(HttpErrorView::MissingHost),
                    HostView::Ip(bits, text) => if public_bits(bits) {
                        Ok(DestinationView::Address(bits, text, port))
                    } else {
                        Err(HttpErrorView::NonPublic(text))
                    },
                    HostView::Domain(domain) => {
                        let host = lowered(without_end(domain, '.'));
                        if named_or_below(host, "localhost"@, ".localhost"@) {
                            Err(HttpErrorView::Loopback)
                        } else if named_or_below(host, "local"@, ".local"@) {
                            Err(HttpErrorView::DotLocal)
                        } else {
                            Ok(DestinationView::Name(domain, port))
                        }
                    },
                },
            }
        },
    }
}

pub open spec fn destination_result(r: Result<HttpDestination, HttpError>) -> Result<
    DestinationView,
    HttpErrorView,
> {
    match r {
        Ok(d) => Ok(d@),
        Err(e) => Err(e@),
    }
}

/// Judges a parsed URL.
pub fn judge_url(parsed: Option<ParsedUrl>) -> (r: Result<HttpDestination, HttpError>)
    ensures
        destination_result(r) == destination_of(opt_url(parsed)),
{
    let url = match parsed {
        Some(u) => u,
        None => {
            return Err(HttpError::InvalidUrl);
        },
    };
    if !same(url.scheme.as_str(), "http") && !same(url.scheme.as_str(), "https") {
        return Err(HttpError::UnsupportedScheme);
    }
    if !url.username.as_str().is_empty() || url.has_password {
        return Err(HttpError::Credentials);
    }
    let port: u16 = match url.port {
        Some(p) => p,
        None => {
            return Err(HttpError::NoPort);
        },
    };
    match url.host {
        UrlHost::Missing => Err(HttpError::MissingHost),
        UrlHost::Ip(address) => if is_public(&address.bits) {
            Ok(HttpDestination::Address(address, port))
        } else {
            Err(HttpError::NonPublic(address.text))
        },
        UrlHost::Domain(domain) => {
            let normalized = to_ascii_lowercase(trim_end_char(domain.as_str(), '.').as_str());
            let host = normalized.as_str();
            if same(host, "localhost") || ends_with(host, ".localhost") {
                Err(HttpError::Loopback)
            } else if same(host, "local") || ends_with(host, ".local") {
                Err(HttpError::DotLocal)
            } else {
                Ok(HttpDestination::Name(domain, port))
            }
        },
    }
}

/// The destination of a URL, or why it is refused.
pub fn http_destination(raw: &str) -> (r: Result<HttpDestination, HttpError>)
    ensures
        destination_result(r) == destination_of(url_parts(raw@)),
{
    judge_url(parse_url(raw))
}

/// A destination whose every address was judged, and to which the connection
/// is pinned.
#[derive(Debug)]
pub struct ValidatedHttpDestination {
    /// The name that the addresses stand for, where there is one.
    pub domain: Option<String>,
    pub addresses: Vec<IpAddress>,
    pub port: u16,
}

pub open spec fn address_bits(list: Seq<IpAddress>) -> Seq<BitsView> {
    list.map_values(|a: IpAddress| a.bits@)
}

/// Whether every address of the list is public.
pub open spec fn all_public(list: Seq<IpAddress>) -> bool {
    forall|i: int| 0 <= i < list.len() ==> public_bits((#[trigger] list[i]).bits@)
}

/// Whether address `i` is the first that is not public.
pub open spec fn first_private(list: Seq<IpAddress>, i: int) -> bool {
    &&& 0 <= i < list.len()
    &&& !public_bits(list[i].bits@)
    &&& forall|j: int| 0 <= j < i ==> public_bits((#[trigger] list[j]).bits@)
}

/// Accepts what a name was looked up to: at least one address, and only public
/// ones.
pub fn admit_addresses(domain: &str, port: u16, addresses: Vec<IpAddress>) -> (r: Result<
    ValidatedHttpDestination,
    HttpError,
>)
    ensures
        match r {
            Ok(d) => addresses.len() > 0 && all_public(addresses@) && d.addresses == addresses
                && d.port == port && opt_view(d.domain) == Some(domain@),
            Err(e) => (addresses.len() == 0 && e@ == HttpErrorView::NoAddresses(domain@))
                || exists|i: int|
                #[trigger] first_private(addresses@, i) && e@ == HttpErrorView::NonPublic(
                    addresses@[i].text@,
                ),
        },
{
    if addresses.len() == 0 {
        return Err(HttpError::NoAddresses(domain.to_owned()));
    }
    let mut i: usize = 0;
    while i < addresses.len()
        invariant
            i <= addresses.len(),
            forall|j: int| 0 <= j < i ==> public_bits((#[trigger] addresses@[j]).bits@),
        decreases addresses.len() - i,
    {
        if !is_public(&addresses[i].bits) {
            assert(first_private(addresses@, i as int));
            return Err(HttpError::NonPublic(addresses[i].text.clone()));
        }
        i += 1;
    }
    Ok(ValidatedHttpDestination { domain: Some(domain.to_owned()), addresses, port })
}

/// Validate direct HTTP destinations before connecting. This intentionally
/// rejects names that resolve to any non-public address, rather than only
/// checking URL text, so DNS aliases cannot be used to reach local services.
///
/// `lookup` is what the host of the URL was looked up to, where it is a name;
/// nothing where the lookup failed.
pub fn validate_external_http_url(raw: &str, lookup: Option<Vec<IpAddress>>) -> (r: Result<
    ValidatedHttpDestination,
    HttpError,
>)
    ensures
        r matches Ok(d) ==> d.addresses.len() > 0 && all_public(d.addresses@),
        match destination_of(url_parts(raw@)) {
            Err(e) => r matches Err(x) && x@ == e,
            Ok(DestinationView::Address(bits, text, port)) => r matches Ok(d) && d.domain is None
                && address_bits(d.addresses@) == seq![bits] && d.port == port,
            Ok(DestinationView::Name(domain, port)) => match lookup {
                None => r matches Err(x) && x@ == HttpErrorView::Unresolved(domain),
                Some(list) => match r {
                    Ok(d) => list.len() > 0 && all_public(list@) && d.addresses == list && d.port
                        == port && opt_view(d.domain) == Some(domain),
                    Err(x) => (list.len() == 0 && x@ == HttpErrorView::NoAddresses(domain))
                        || exists|i: int|
                        #[trigger] first_private(list@, i) && x@ == HttpErrorView::NonPublic(
                            list@[i].text@,
                        ),
                },
            },
        },
{
    match http_destination(raw) {
        Err(e) => Err(e),
        Ok(HttpDestination::Address(address, port)) => {
            let mut addresses: Vec<IpAddress> = Vec::new();
            let ghost bits = address.bits@;
            addresses.push(address);
            assert(address_bits(addresses@) =~= seq![bits]);
            Ok(ValidatedHttpDestination { domain: None, addresses, port })
        },
        Ok(HttpDestination::Name(domain, port)) => match lookup {
            None => Err(HttpError::Unresolved(domain)),
            Some(list) => admit_addresses(domain.as_str(), port, list),
        },
    }
}

/// A destination is only ever a public address, or a name that is neither
/// `localhost` nor `local` nor below them.
pub proof fn destinations_are_never_local(url: UrlView)
    requires
        destination_of(Some(url)) is Ok,
    ensures
        url.scheme == "http"@ || url.scheme == "https"@,
        url.username.len() == 0 && !url.has_password,
        match url.host {
            HostView::Ip(bits, _) => public_bits(bits),
            HostView::Domain(d) => {
                let host = lowered(without_end(d, '.'));
                !named_or_below(host, "localhost"@, ".localhost"@) && !named_or_below(
                    host,
                    "local"@,
                    ".local"@,
                )
            },
            HostView::Missing => false,
        },
{
}

/// How the connection of a request is made.
#[derive(Clone, Copy, Debug, PartialEq, Eq, Structural)]
pub enum HttpRequestRoute {
    DirectPinned,
}

/// The route of a validated request. The security decision and the connection
/// must use the same address set: a proxy would re-resolve the hostname after
/// validation, reopening DNS rebinding against private services.
pub fn http_request_route(scheme: &str) -> (r: HttpRequestRoute)
    requires
        scheme@ == "http"@ || scheme@ == "https"@,
    ensures
        r == HttpRequestRoute::DirectPinned,
{
    HttpRequestRoute::DirectPinned
}

// ---------------------------------------------------------------------------
// Requests and responses
// ---------------------------------------------------------------------------

#[derive(Clone, Copy, Debug, PartialEq, Eq, Structural)]
pub enum HttpMethod {
    Get,
    Post,
    Put,
    Patch,
    Delete,
}

pub open spec fn method_of(name: Seq<char>) -> Option<HttpMethod> {
    if name == "GET"@ {
        Some(HttpMethod::Get)
    } else if name == "POST"@ {
        Some(HttpMethod::Post)
    } else if name == "PUT"@ {
        Some(HttpMethod::Put)
    } else if name == "PATCH"@ {
        Some(HttpMethod::Patch)
    } else if name == "DELETE"@ {
        Some(HttpMethod::Delete)
    } else {
        None
    }
}

fn http_method(name: &str) -> (r: Option<HttpMethod>)
    ensures
        r == method_of(name@),
{
    if same(name, "GET") {
        Some(HttpMethod::Get)
    } else if same(name, "POST") {
        Some(HttpMethod::Post)
    } else if same(name, "PUT") {
        Some(HttpMethod::Put)
    } else if same(name, "PATCH") {
        Some(HttpMethod::Patch)
    } else if same(name, "DELETE") {
        Some(HttpMethod::Delete)
    } else {
        None
    }
}

/// A name with its value.
#[derive(Debug, PartialEq, Eq)]
pub struct Pair {
    pub name: String,
    pub value: String,
}

pub open spec fn pair_views(list: Seq<Pair>) -> Seq<(Seq<char>, Seq<char>)> {
    list.map_values(|p: Pair| (p.name@, p.value@))
}

/// The fields of an object whose values are texts; no others are sent.
pub open spec fn text_pairs(fields: Seq<(Seq<char>, JsonView)>) -> Seq<(Seq<char>, Seq<char>)>
    decreases fields.len(),
{
    if fields.len() == 0 {
        seq![]
    } else {
        let before = text_pairs(fields.drop_last());
        match fields.last().1 {
            JsonView::Text(value) => before.push((fields.last().0, value)),
            _ => before,
        }
    }
}

fn collect_pairs(fields: &Vec<JsonField>) -> (r: Vec<Pair>)
    ensures
        pair_views(r@) == text_pairs(field_views(fields@)),
{
    let ghost all = field_views(fields@);
    let mut out: Vec<Pair> = Vec::new();
    let mut i: usize = 0;
    assert(pair_views(out@) =~= seq![]);
    while i < fields.len()
        invariant
            i <= fields.len(),
            all == field_views(fields@),
            pair_views(out@) == text_pairs(all.take(i as int)),
        decreases fields.len() - i,
    {
        let ghost before = pair_views(out@);
        proof {
            assert(all.take(i + 1).drop_last() =~= all.take(i as int));
            assert(all.take(i + 1).last() == (fields@[i as int].key@, fields@[i as int].value@));
        }
        if let Some(value) = fields[i].value.as_str() {
            out.push(Pair { name: fields[i].key.clone(), value: value.to_owned() });
            assert(pair_views(out@) =~= before.push((fields@[i as int].key@, value@)));
        }
        i += 1;
    }
    assert(all.take(i as int) =~= all);
    out
}

/// A request, ready to be sent.
#[derive(Debug)]
pub struct HttpRequestPlan {
    pub method: HttpMethod,
    pub query: Vec<Pair>,
    pub headers: Vec<Pair>,
    pub body: Option<String>,
}

pub open spec fn pairs_or_none(fields: Option<Seq<(Seq<char>, JsonView)>>) -> Seq<
    (Seq<char>, Seq<char>),
> {
    match fields {
        Some(f) => text_pairs(f),
        None => seq![],
    }
}

pub open spec fn opt_fields(o: Option<&Vec<JsonField>>) -> Option<Seq<(Seq<char>, JsonView)>> {
    match o {
        Some(f) => Some(field_views(f@)),
        None => None,
    }
}

/// The headers of a request: those that were asked for, and the content type
/// where the body is JSON.
pub open spec fn sent_headers(
    asked: Seq<(Seq<char>, Seq<char>)>,
    body_is_json: bool,
) -> Seq<(Seq<char>, Seq<char>)> {
    if body_is_json {
        asked.push(("Content-Type"@, "application/json"@))
    } else {
        asked
    }
}

/// Puts a request together. `body_is_json` says whether the body reads as a
/// JSON document.
pub fn assemble_request(
    method: &str,
    headers: Option<&Vec<JsonField>>,
    body: Option<&str>,
    body_is_json: bool,
    query_params: Option<&Vec<JsonField>>,
) -> (r: Result<HttpRequestPlan, HttpError>)
    ensures
        match method_of(method@) {
            None => r matches Err(e) && e@ == HttpErrorView::UnsupportedMethod(method@),
            Some(m) => r matches Ok(plan) && plan.method == m && pair_views(plan.query@)
                == pairs_or_none(opt_fields(query_params)) && pair_views(plan.headers@)
                == sent_headers(
                pairs_or_none(opt_fields(headers)),
                body is Some && body_is_json,
            ) && opt_view(plan.body) == opt_str(body),
        },
{
    let method = match http_method(method) {
        Some(m) => m,
        None => {
            return Err(HttpError::UnsupportedMethod(method.to_owned()));
        },
    };
    let query = match query_params {
        Some(fields) => collect_pairs(fields),
        None => Vec::new(),
    };
    assert(query_params is None ==> pair_views(query@) =~= seq![]);
    let mut headers_out = match headers {
        Some(fields) => collect_pairs(fields),
        None => Vec::new(),
    };
    assert(headers is None ==> pair_views(headers_out@) =~= seq![]);
    let ghost asked = pair_views(headers_out@);
    let body_out = match body {
        Some(b) => {
            if body_is_json {
                headers_out.push(
                    Pair { name: "Content-Type".to_owned(), value: "application/json".to_owned() },
                );
                assert(pair_views(headers_out@) =~= asked.push(
                    ("Content-Type"@, "application/json"@),
                ));
            }
            Some(b.to_owned())
        },
        None => None,
    };
    Ok(HttpRequestPlan { method, query, headers: headers_out, body: body_out })
}

/// Plans a request: a body that is valid JSON is sent as such.
pub fn plan_http_request(
    method: &str,
    headers: Option<&Vec<JsonField>>,
    body: Option<&str>,
    query_params: Option<&Vec<JsonField>>,
) -> (r: Result<HttpRequestPlan, HttpError>)
    ensures
        match method_of(method@) {
            None => r matches Err(e) && e@ == HttpErrorView::UnsupportedMethod(method@),
            Some(m) => r matches Ok(plan) && plan.method == m && pair_views(plan.query@)
                == pairs_or_none(opt_fields(query_params)) && pair_views(plan.headers@)
                == sent_headers(
                pairs_or_none(opt_fields(headers)),
                body matches Some(b) && json_document(b@) is Some,
            ) && opt_view(plan.body) == opt_str(body),
        },
{
    let json = match body {
        Some(b) => is_json(b),
        None => false,
    };
    assemble_request(method, headers, body, json, query_params)
}

/// Whether a response header is shown.
pub open spec fn shown_header(name: Seq<char>) -> bool {
    let lower = lowered(name);
    lower == "content-type"@ || lower == "content-length"@ || lower == "x-request-id"@ || lower
        == "x-ratelimit-remaining"@
}

/// The header lines that are shown, in order.
pub open spec fn header_lines(headers: Seq<(Seq<char>, Seq<char>)>) -> Seq<Seq<char>>
    decreases headers.len(),
{
    if headers.len() == 0 {
        seq![]
    } else {
        let before = header_lines(headers.drop_last());
        if shown_header(headers.last().0) {
            before.push(headers.last().0 + ": "@ + headers.last().1)
        } else {
            before
        }
    }
}

fn collect_header_lines(headers: &Vec<Pair>) -> (r: Vec<String>)
    ensures
        views(r@) == header_lines(pair_views(headers@)),
{
    let ghost all = pair_views(headers@);
    let mut out: Vec<String> = Vec::new();
    let mut i: usize = 0;
    assert(views(out@) =~= seq![]);
    while i < headers.len()
        invariant
            i <= headers.len(),
            all == pair_views(headers@),
            views(out@) == header_lines(all.take(i as int)),
        decreases headers.len() - i,
    {
        let h = &headers[i];
        let ghost before = views(out@);
        proof {
            assert(all.take(i + 1).drop_last() =~= all.take(i as int));
            assert(all.take(i + 1).last() == (h.name@, h.value@));
        }
        let lower = to_ascii_lowercase(h.name.as_str());
        let l = lower.as_str();
        if same(l, "content-type") || same(l, "content-length") || same(l, "x-request-id") || same(
            l,
            "x-ratelimit-remaining",
        ) {
            let line = concat3(h.name.as_str(), ": ", h.value.as_str());
            out.push(line);
            assert(views(out@) =~= before.push(line@));
        }
        i += 1;
    }
    assert(all.take(i as int) =~= all);
    out
}

/// How a response reads: the status, the shown headers, and the body.
pub open spec fn response_text(
    status: nat,
    headers: Seq<(Seq<char>, Seq<char>)>,
    body: Seq<char>,
) -> Seq<char> {
    let lines = header_lines(headers);
    "HTTP "@ + decimal(status) + "\n"@ + if lines.len() > 0 {
        joined(lines, "\n"@) + "\n"@
    } else {
        seq![]
    } + "\n"@ + body
}

/// Formats a response whose body is already as it is to be shown.
pub fn format_response(status: u16, headers: &Vec<Pair>, body: &str) -> (r: String)
    ensures
        r@ == response_text(status as nat, pair_views(headers@), body@),
{
    let lines = collect_header_lines(headers);
    let mut out = concat3("HTTP ", decimal_of(status as u128).as_str(), "\n");
    if lines.len() > 0 {
        out.append(concat2(join(&lines, "\n").as_str(), "\n").as_str());
    }
    out.append("\n");
    out.append(body);
    assert(out@ =~= response_text(status as nat, pair_views(headers@), body@));
    out
}

/// The body of a response, as it is shown: a JSON document is indented.
pub open spec fn shown_body(body: Seq<char>) -> Seq<char> {
    match json_document(body) {
        Some(value) => match json_pretty(value) {
            Some(printed) => printed,
            None => body,
        },
        None => body,
    }
}

/// Formats a response; a body that is JSON is indented.
pub fn http_response_text(status: u16, headers: &Vec<Pair>, body: &str) -> (r: String)
    ensures
        r@ == response_text(status as nat, pair_views(headers@), shown_body(body@)),
{
    match prettify_json(body) {
        Some(pretty) => format_response(status, headers, pretty.as_str()),
        None => format_response(status, headers, body),
    }
}

// ---------------------------------------------------------------------------
// Fetching pages
// ---------------------------------------------------------------------------

/// Whether a text names an HTTP URL.
pub open spec fn http_url(url: Seq<char>) -> bool {
    "http://"@.is_prefix_of(url) || "https://"@.is_prefix_of(url)
}

pub fn is_http_url(url: &str) -> (r: bool)
    ensures
        r == http_url(url@),
{
    starts_with(url, "http://") || starts_with(url, "https://")
}

/// Where a page is fetched as Markdown: first, and then as a fallback.
pub fn markdown_sources(url: &str) -> (r: (String, String))
    ensures
        r.0@ == "https://defuddle.md/"@ + url@,
        r.1@ == "https://r.jina.ai/"@ + url@,
{
    (concat2("https://defuddle.md/", url), concat2("https://r.jina.ai/", url))
}

/// Whether the answer of the first source is used: it succeeded and is not
/// blank.
pub fn accepts_markdown(success: bool, body: Option<&str>) -> (r: bool)
    ensures
        r == (success && (body matches Some(b) && trimmed(b@).len() > 0)),
{
    match body {
        Some(b) => success && !trim(b).as_str().is_empty(),
        None => false,
    }
}

/// What is said where both sources refused.
pub fn fetch_failure(last_status: &str) -> (r: String)
    ensures
        r@
            == "fetch failed: defuddle.md and r.jina.ai both returned non-2xx (last: "@
            + last_status@ + ")"@,
{
    concat3(
        "fetch failed: defuddle.md and r.jina.ai both returned non-2xx (last: ",
        last_status,
        ")",
    )
}

/// The first text that is there.
pub open spec fn first_text(a: Option<Seq<char>>, b: Option<Seq<char>>) -> Option<Seq<char>> {
    match a {
        Some(s) => Some(s),
        None => b,
    }
}

/// The text of a page that the pipellm reader gave.
pub open spec fn pipellm_page(json: JsonView) -> Seq<char> {
    let text = match first_text(
        first_text(text_of(field_of(json, "content"@)), text_of(field_of(json, "text"@))),
        text_of(Some(json)),
    ) {
        Some(t) => t,
        None => seq![],
    };
    if trimmed(text).len() > 0 {
        text
    } else {
        "Page returned empty content."@
    }
}

pub fn pipellm_reader_text(json: &JsonValue) -> (r: String)
    ensures
        r@ == pipellm_page(json@),
{
    let text = match json.get_str("content") {
        Some(t) => t.to_owned(),
        None => match json.get_str("text") {
            Some(t) => t.to_owned(),
            None => match json.as_str() {
                Some(t) => t.to_owned(),
                None => String::new(),
            },
        },
    };
    if !trim(text.as_str()).as_str().is_empty() {
        text
    } else {
        "Page returned empty content.".to_owned()
    }
}

/// The text of a page that tavily extracted; nothing where it is blank, so
/// that the page is fetched otherwise.
pub open spec fn tavily_page(json: JsonView) -> Option<Seq<char>> {
    match items_of(field_of(json, "results"@)) {
        Some(items) => if items.len() == 0 {
            None
        } else {
            match first_text(
                text_of(field_of(items[0], "raw_content"@)),
                text_of(field_of(items[0], "content"@)),
            ) {
                Some(text) => if trimmed(text).len() > 0 {
                    Some(text)
                } else {
                    None
                },
                None => None,
            }
        },
        None => None,
    }
}

pub fn tavily_extract_text(json: &JsonValue) -> (r: Option<String>)
    ensures
        opt_view(r) == tavily_page(json@),
{
    match json.get_array("results") {
        Some(items) => {
            if items.len() == 0 {
                return None;
            }
            assert(json_views(items@)[0] == items@[0]@);
            let text = match items[0].get_str("raw_content") {
                Some(t) => t.to_owned(),
                None => match items[0].get_str("content") {
                    Some(t) => t.to_owned(),
                    None => {
                        assert(trimmed(Seq::<char>::empty()).len() == 0);
                        return None;
                    },
                },
            };
            if trim(text.as_str()).as_str().is_empty() {
                None
            } else {
                Some(text)
            }
        },
        None => None,
    }
}

// ---------------------------------------------------------------------------
// Summaries
// ---------------------------------------------------------------------------

/// Content above this raw-bytes threshold is passed through a cheap
/// summarizer before being returned to the main agent. Picked so a typical
/// docs page (under 4 KB clean markdown) skips the second LLM hop, while
/// long blog posts and reference pages get compressed.
pub const SUMMARIZE_FETCH_THRESHOLD: usize = 4_000;

pub fn should_return_raw_fetch(detail: &str, raw_requested: bool) -> (r: bool)
    ensures
        r == (raw_requested || detail@ == "full"@),
{
    raw_requested || same(detail, "full")
}

/// The model that summarizes a fetched page, or nothing where the page is
/// returned as it is.
pub open spec fn summarizer(
    content: Seq<char>,
    raw_passthrough: bool,
    fast_model: Option<Seq<char>>,
    chat_model: Seq<char>,
) -> Option<Seq<char>> {
    let model = match fast_model {
        Some(m) => if m.len() > 0 {
            m
        } else {
            chat_model
        },
        None => chat_model,
    };
    if raw_passthrough || utf8_len(content) < SUMMARIZE_FETCH_THRESHOLD || model.len() == 0 {
        None
    } else {
        Some(model)
    }
}

/// Decides whether a fetched page is summarized, and by which model. Uses
/// `fast_model` when present (this is a low-stakes compression step and should
/// not bill against the deep model).
pub fn summary_model(
    content: &str,
    raw_passthrough: bool,
    fast_model: Option<&str>,
    chat_model: &str,
) -> (r: Option<String>)
    ensures
        opt_view(r) == summarizer(content@, raw_passthrough, opt_str(fast_model), chat_model@),
{
    if raw_passthrough || encoded_len(content) < SUMMARIZE_FETCH_THRESHOLD {
        return None;
    }
    let model = match fast_model {
        Some(m) => if !m.is_empty() {
            m
        } else {
            chat_model
        },
        None => chat_model,
    };
    if model.is_empty() {
        None
    } else {
        Some(model.to_owned())
    }
}

/// The prompt of the summarizer, with the URL and the page filled in.
pub fn summary_prompt(template: &str, url: &str, content: &str) -> (r: String)
    ensures
        r@ == text_replaced(
            text_replaced(template@, "${URL}"@, url@),
            "${WEB_CONTENT}"@,
            content@,
        ),
{
    proof {
        reveal_strlit("${URL}");
        reveal_strlit("${WEB_CONTENT}");
    }
    let with_url = replace_text(template, "${URL}", url);
    replace_text(with_url.as_str(), "${WEB_CONTENT}", content)
}

/// The summary, or the page itself where there is no summary to use, so that
/// the agent loop never breaks because the summarizer was misconfigured.
pub fn summary_or_content(summary: Option<&str>, content: &str) -> (r: String)
    ensures
        r@ == (match summary {
            Some(s) => if trimmed(s@).len() > 0 {
                s@
            } else {
                content@
            },
            None => content@,
        }),
{
    match summary {
        Some(s) => if !trim(s).as_str().is_empty() {
            s.to_owned()
        } else {
            content.to_owned()
        },
        None => content.to_owned(),
    }
}

} // verus!
