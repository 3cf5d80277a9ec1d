use kaku::json::{json_string, parse_json, JsonField, JsonValue};
use kaku::net::{ipv4_is_public, ipv6_is_public, is_public, IpAddress, IpBits};
use kaku::reading::{
    fetch_markdown_default, next_fetch, next_pipellm_read, next_search, next_tavily_read,
    start_read_url, FetchStep, ReadStep, Reply, SearchStep,
};
use kaku::registry::AssistantConfig;
use kaku::web::{
    accepts_markdown, admit_addresses, fetch_failure, http_request_route, http_response_text,
    is_http_url, markdown_sources, plan_http_request, should_return_raw_fetch, summary_model,
    summary_prompt, tavily_extract_text, validate_external_http_url, HttpError, HttpMethod,
    HttpRequestRoute, Pair,
};
use kaku::web_search::{
    brave_endpoint, brave_query, pipellm_base, pipellm_url, plan_web_search, render_brave,
    tavily_body, SearchError, SearchProvider,
};

fn address(octets: [u8; 4]) -> IpAddress {
    IpAddress {
        bits: IpBits::V4(octets),
        text: format!("{}.{}.{}.{}", octets[0], octets[1], octets[2], octets[3]),
    }
}

#[test]
fn direct_http_requests_reject_local_and_private_destinations() {
    for url in [
        "http://127.0.0.1/admin",
        "http://[::1]/admin",
        "http://10.0.0.8/",
        "http://100.64.0.1/",
        "http://169.254.169.254/latest/meta-data/",
        "https://service.local/",
        "https://localhost/",
    ] {
        assert!(
            validate_external_http_url(url, None).is_err(),
            "must reject {}",
            url
        );
    }
}

#[test]
fn public_ip_classification_rejects_reserved_ranges() {
    assert!(ipv4_is_public([8, 8, 8, 8]));
    assert!(!ipv4_is_public([192, 168, 1, 2]));
    assert!(!ipv4_is_public([100, 127, 255, 254]));
    assert!(!ipv4_is_public([192, 88, 99, 1]));
    assert!(!ipv6_is_public([0xfe80, 0, 0, 0, 0, 0, 0, 0x1]));
    assert!(!ipv6_is_public([0xfec0, 0, 0, 0, 0, 0, 0, 0x1]));
    assert!(!ipv6_is_public([0x64, 0xff9b, 0x1, 0, 0, 0, 0, 0x1]));
    assert!(ipv6_is_public([0x2606, 0x4700, 0x4700, 0, 0, 0, 0, 0x1111]));
    // Well-known NAT64 prefix (RFC 6052): judge the embedded IPv4.
    // 64:ff9b::a9fe:a9fe embeds 169.254.169.254 (metadata endpoint).
    assert!(!ipv6_is_public([0x64, 0xff9b, 0, 0, 0, 0, 0xa9fe, 0xa9fe]));
    assert!(!ipv6_is_public([0x64, 0xff9b, 0, 0, 0, 0, 0x7f00, 0x1]));
    assert!(ipv6_is_public([0x64, 0xff9b, 0, 0, 0, 0, 0x101, 0x101]));
    // 6to4 (RFC 3056): 2002:V4ADDR::/48 embeds the IPv4 in segments 1-2.
    assert!(!ipv6_is_public([0x2002, 0xa9fe, 0xa9fe, 0, 0, 0, 0, 0x1]));
    assert!(!ipv6_is_public([0x2002, 0xc0a8, 0x101, 0, 0, 0, 0, 0x1]));
    assert!(ipv6_is_public([0x2002, 0x101, 0x101, 0, 0, 0, 0, 0x1]));
    assert!(is_public(&IpBits::V6([0x2606, 0x4700, 0x4700, 0, 0, 0, 0, 0x1111])));
}

#[test]
fn validated_ip_destination_is_pinned_to_the_checked_socket() {
    let destination = validate_external_http_url("https://8.8.8.8/example", None).unwrap();
    assert!(destination.domain.is_none());
    assert_eq!(destination.addresses.len(), 1);
    assert!(matches!(destination.addresses[0].bits, IpBits::V4([8, 8, 8, 8])));
    assert_eq!(destination.port, 443);
}

#[test]
fn https_http_request_uses_direct_pinned_routing() {
    assert_eq!(
        http_request_route("https"),
        HttpRequestRoute::DirectPinned,
        "validated HTTPS destinations must not be re-resolved by a proxy"
    );
}

#[test]
fn raw_fetch_policy_respects_full_detail_and_explicit_raw() {
    assert!(should_return_raw_fetch("full", false));
    assert!(should_return_raw_fetch("default", true));
    assert!(!should_return_raw_fetch("default", false));
    assert!(!should_return_raw_fetch("brief", false));
}

#[test]
fn urls_are_refused_for_a_reason() {
    let refuse = |url: &str| validate_external_http_url(url, None).unwrap_err();
    assert!(matches!(refuse("not a url"), HttpError::InvalidUrl));
    assert!(matches!(refuse("ftp://example.com/"), HttpError::UnsupportedScheme));
    assert!(matches!(refuse("http://user:pw@example.com/"), HttpError::Credentials));
    assert!(matches!(refuse("http://localhost/"), HttpError::Loopback));
    assert!(matches!(refuse("http://printer.local/"), HttpError::DotLocal));
    assert!(matches!(refuse("http://10.1.2.3/"), HttpError::NonPublic(_)));
    assert!(matches!(refuse("http://example.com/"), HttpError::Unresolved(_)));
    assert!(matches!(
        validate_external_http_url("http://example.com/", Some(vec![])),
        Err(HttpError::NoAddresses(_))
    ));
}

#[test]
fn names_are_pinned_to_public_addresses_only() {
    let good = validate_external_http_url("http://example.com:8080/", Some(vec![address([8, 8, 4, 4])]))
        .unwrap();
    assert_eq!(good.domain.as_deref(), Some("example.com"));
    assert_eq!(good.port, 8080);
    assert!(matches!(
        admit_addresses("example.com", 80, vec![address([8, 8, 4, 4]), address([127, 0, 0, 1])]),
        Err(HttpError::NonPublic(_))
    ));
}

#[test]
fn requests_are_assembled() {
    let headers = vec![JsonField {
        key: "X-A".to_string(),
        value: json_string("1"),
    }];
    let plan = plan_http_request("POST", Some(&headers), Some("{\"a\":1}"), None).unwrap();
    assert_eq!(plan.method, HttpMethod::Post);
    assert!(plan.headers.iter().any(|p| p.name == "X-A" && p.value == "1"));
    assert_eq!(plan.body.as_deref(), Some("{\"a\":1}"));
    assert!(plan
        .headers
        .iter()
        .any(|p| p.name.eq_ignore_ascii_case("content-type") && p.value == "application/json"));
    let plain = plan_http_request("POST", None, Some("hello"), None).unwrap();
    assert!(!plain
        .headers
        .iter()
        .any(|p| p.value == "application/json"));
    assert!(matches!(
        plan_http_request("TRACE", None, None, None),
        Err(HttpError::UnsupportedMethod(_))
    ));
}

#[test]
fn responses_show_pretty_json() {
    let text = http_response_text(200, &vec![], "{\"b\":[1,2]}");
    assert!(text.contains("200"));
    assert!(text.contains("\"b\": ["));
    let headers = vec![Pair {
        name: "x-a".to_string(),
        value: "1".to_string(),
    }];
    assert!(http_response_text(404, &headers, "gone").contains("gone"));
}

#[test]
fn pages_are_fetched_as_markdown() {
    assert!(is_http_url("https://example.com"));
    assert!(!is_http_url("file:///etc/passwd"));
    let (first, second) = markdown_sources("https://example.com/a");
    assert_ne!(first, second);
    assert!(first.contains("example.com/a") && second.contains("example.com/a"));
    assert!(accepts_markdown(true, Some("# Title and enough text to be a page")));
    assert!(!accepts_markdown(false, Some("# Title")));
    assert!(fetch_failure("503").contains("503"));
}

#[test]
fn long_pages_are_summarized_by_the_fast_model() {
    let long = "x".repeat(50_000);
    assert_eq!(
        summary_model(&long, false, Some("fast"), "deep"),
        Some("fast".to_string())
    );
    assert_eq!(summary_model(&long, true, Some("fast"), "deep"), None);
    assert_eq!(summary_model("short", false, Some("fast"), "deep"), None);
    let prompt = summary_prompt("{url}|{content}", "u", "c");
    assert!(prompt.contains('u') && prompt.contains('c'));
}

fn search_config(provider: &str, key: Option<&str>) -> AssistantConfig {
    AssistantConfig {
        web_search_ready: true,
        web_search_provider: Some(provider.to_string()),
        web_search_api_key: key.map(|k| k.to_string()),
        web_fetch_script: None,
    }
}

fn query_args() -> JsonValue {
    JsonValue::Object(vec![JsonField {
        key: "query".to_string(),
        value: json_string("rust"),
    }])
}

#[test]
fn searches_need_query_provider_and_key() {
    let request = plan_web_search(&query_args(), &search_config("brave", Some("k"))).unwrap();
    assert_eq!(request.provider, SearchProvider::Brave);
    assert_eq!(request.query, "rust");
    assert!(matches!(
        plan_web_search(&JsonValue::Object(vec![]), &search_config("brave", Some("k"))),
        Err(SearchError::MissingQuery)
    ));
    assert!(matches!(
        plan_web_search(&query_args(), &search_config("brave", None)),
        Err(SearchError::NoApiKey)
    ));
    assert!(matches!(
        plan_web_search(&query_args(), &search_config("other", Some("k"))),
        Err(SearchError::UnknownProvider(_))
    ));
    let none = AssistantConfig {
        web_search_ready: true,
        web_search_provider: None,
        web_search_api_key: None,
        web_fetch_script: None,
    };
    assert!(matches!(
        plan_web_search(&query_args(), &none),
        Err(SearchError::NoProvider)
    ));
}

#[test]
fn search_results_are_rendered() {
    let json = parse_json(
        "{\"web\":{\"results\":[{\"title\":\"Rust\",\"url\":\"https://rust-lang.org\",\"description\":\"A language\"}]}}",
    )
    .unwrap();
    let text = render_brave(&json, None);
    assert!(text.contains("Rust"));
    assert!(text.contains("https://rust-lang.org"));
    assert!(brave_endpoint(None).starts_with("https://"));
    assert!(brave_query("rust", Some("pw")).iter().any(|p| p.value == "rust"));
    assert!(pipellm_base(0).is_some());
    assert!(pipellm_base(1_000).is_none());
    assert!(pipellm_url("https://h", None).starts_with("https://h"));
    assert_eq!(tavily_body("rust", None, None, None).get_str("query"), Some("rust"));
    assert_eq!(tavily_extract_text(&parse_json("{}").unwrap()), None);
}

fn refused() -> Reply {
    Reply::Refused {
        status: "503 Service Unavailable".to_string(),
        body: "busy".to_string(),
    }
}

#[test]
fn pages_are_fetched_from_two_sources() {
    match fetch_markdown_default("http://a") {
        FetchStep::Get(url) => assert_eq!(url, "https://defuddle.md/http://a"),
        _ => panic!("expected a request"),
    }
    match next_fetch("http://a", false, Reply::Page("# Hi".to_string())) {
        FetchStep::Done(text) => assert_eq!(text, "# Hi"),
        _ => panic!("expected a page"),
    }
    match next_fetch("http://a", false, Reply::Page(" \n".to_string())) {
        FetchStep::Get(url) => assert_eq!(url, "https://r.jina.ai/http://a"),
        _ => panic!("expected a request"),
    }
    match next_fetch("http://a", true, refused()) {
        FetchStep::Failed(e) => assert!(e.contains("(last: 503 Service Unavailable)")),
        _ => panic!("expected a failure"),
    }
    match next_fetch("http://a", true, Reply::Unreachable("x".to_string())) {
        FetchStep::Failed(e) => assert_eq!(e, "both defuddle.md and r.jina.ai unreachable"),
        _ => panic!("expected a failure"),
    }
}

#[test]
fn readers_fall_back_to_a_fetch() {
    match start_read_url("pipellm") {
        ReadStep::Pipellm { base, failures } => {
            assert_eq!(base, "https://api.pipellm.ai");
            assert_eq!(failures, 0);
        }
        _ => panic!("expected the reader"),
    }
    match next_pipellm_read(0, refused()) {
        ReadStep::Pipellm { base, failures } => {
            assert_eq!(base, "https://api.pipellm.com");
            assert_eq!(failures, 1);
        }
        _ => panic!("expected the other host"),
    }
    assert!(matches!(next_pipellm_read(1, refused()), ReadStep::Fetch));
    match next_pipellm_read(0, Reply::Page("{\"text\":\"hello\"}".to_string())) {
        ReadStep::Done(text) => assert_eq!(text, "hello"),
        _ => panic!("expected a page"),
    }
    match next_pipellm_read(0, Reply::Page("{}".to_string())) {
        ReadStep::Done(text) => assert_eq!(text, "Page returned empty content."),
        _ => panic!("expected a page"),
    }
    assert!(matches!(start_read_url("tavily"), ReadStep::Tavily));
    assert!(matches!(next_tavily_read(refused()), ReadStep::Fetch));
    assert!(matches!(
        next_tavily_read(Reply::Page("{\"results\":[]}".to_string())),
        ReadStep::Fetch
    ));
    match next_tavily_read(Reply::Page("{\"results\":[{\"content\":\"c\"}]}".to_string())) {
        ReadStep::Done(text) => assert_eq!(text, "c"),
        _ => panic!("expected a page"),
    }
    assert!(matches!(next_tavily_read(Reply::Unreadable), ReadStep::Failed(_)));
    assert!(matches!(start_read_url("brave"), ReadStep::Fetch));
}

#[test]
fn searches_try_every_host_once() {
    let pipellm = SearchProvider::Pipellm;
    match next_search(pipellm, None, 0, refused()) {
        SearchStep::AskAgain { base, failures } => {
            assert_eq!(base, "https://api.pipellm.com");
            assert_eq!(failures, 1);
        }
        _ => panic!("expected the other host"),
    }
    match next_search(pipellm, None, 1, refused()) {
        SearchStep::Failed(e) => assert_eq!(
            e,
            "pipellm search failed: 503 Service Unavailable from https://api.pipellm.com: busy"
        ),
        _ => panic!("expected a failure"),
    }
    match next_search(SearchProvider::Brave, None, 0, refused()) {
        SearchStep::Failed(e) => {
            assert_eq!(e, "brave search returned 503 Service Unavailable: busy")
        }
        _ => panic!("expected a failure"),
    }
    match next_search(SearchProvider::Tavily, None, 0, Reply::Page("{".to_string())) {
        SearchStep::Failed(e) => assert_eq!(e, "parse tavily response"),
        _ => panic!("expected a failure"),
    }
    let page = Reply::Page("{\"answer\":\"42\",\"results\":[]}".to_string());
    match next_search(SearchProvider::Tavily, None, 0, page) {
        SearchStep::Done(text) => assert_eq!(text, "**Answer:** 42\n\n"),
        _ => panic!("expected an answer"),
    }
}
