use kaku::code_search::{
    admits_file, admits_size, escape_regex, fallback_empty_truncation_message, fallback_regex_search,
    fallback_truncation_notice, finish_file, grep_fallback_report, grep_report, grep_rg_args,
    keep_stderr, plan_grep_search, plan_symbol_search, read_rg_line, search_file, skips_entry,
    sort_symbol_lines, symbol_pattern, symbol_report, symbol_rg_args, watch_search,
    FALLBACK_MAX_OUTPUT_BYTES, FallbackSearchOutput, FallbackTruncation, FileScan, GrepCollector,
    GrepRequest, LineMatcher, PatternRefusal, SearchEnd, SearchPlan, SymbolRequest, TextFile,
};
use kaku::json::{json_string, JsonField, JsonValue};
use kaku::paths::{
    blocked_locations, resolve_checked_optional_arg, Ancestor, EscapeFacts, PathError, PathFacts,
};
use kaku::registry::AssistantConfig;
use kaku::tools::{plan_tool_call, ToolCall};

/// Searches a text to its end.
fn search_text(
    output: FallbackSearchOutput,
    matcher: &LineMatcher,
    path: &str,
    text: &str,
    context: usize,
    max_results: usize,
) -> (FallbackSearchOutput, bool) {
    let lines: Vec<String> = text.lines().map(|l| l.to_string()).collect();
    search_file(output, matcher, path, &lines, context, max_results)
}

fn matcher(pattern: &str) -> LineMatcher {
    LineMatcher::compile(pattern, false, "grep_search").ok().unwrap()
}

#[test]
fn grep_rg_args_keeps_flag_barrier_before_pattern() {
    let globs = vec!["!**/.env".to_string()];
    let args = grep_rg_args(
        "--pre=/bin/sh",
        "/tmp/probe",
        2,
        100,
        false,
        Some("*.rs"),
        &globs,
    );
    let barrier = args.iter().position(|a| a == "--").expect("has `--`");
    assert_eq!(args[barrier + 1], "--pre=/bin/sh");
    assert_eq!(args[barrier + 2], "/tmp/probe");
    assert_eq!(barrier + 3, args.len(), "pattern and path are last");
    assert!(!args[..barrier].iter().any(|a| a == "--pre=/bin/sh"));
}

#[test]
fn symbol_rg_args_keeps_flag_barrier_before_pattern() {
    let args = symbol_rg_args("--pre=/bin/sh", "/tmp/probe", None, &vec![]);
    let barrier = args.iter().position(|a| a == "--").expect("has `--`");
    assert_eq!(args[barrier + 1], "--pre=/bin/sh");
    assert_eq!(args[barrier + 2], "/tmp/probe");
    assert_eq!(barrier + 3, args.len(), "pattern and path are last");
}

fn text_file(path: &str, text: &str) -> TextFile {
    TextFile {
        path: path.to_string(),
        text: text.to_string(),
    }
}

#[test]
fn fallback_search_bounds_total_output_bytes() {
    let line = format!("needle {}\n", "x".repeat(120));
    let files = vec![text_file("/tmp/big.txt", &line.repeat(20_000))];
    let out = fallback_regex_search("needle", false, "grep_search", &files, 100, usize::MAX)
        .expect("search ok");
    assert_eq!(out.truncation, Some(FallbackTruncation::OutputBytes));
    let total: usize = out.lines.iter().map(|l| l.len() + 1).sum();
    assert_eq!(total, out.bytes);
    assert!(
        total <= FALLBACK_MAX_OUTPUT_BYTES,
        "accumulated output {} exceeds budget",
        total
    );
}

#[test]
fn fallback_search_keeps_matches_collected_before_result_limit() {
    let files = vec![text_file("/tmp/two.txt", "needle first\nneedle second\n")];
    let out =
        fallback_regex_search("needle", false, "grep_search", &files, 0, 1).expect("search ok");

    assert_eq!(
        out.lines.len(),
        1,
        "the first accepted match must be rendered"
    );
    assert!(out.lines[0].contains("needle first"));
    assert_eq!(out.truncation, Some(FallbackTruncation::ResultLimit));
}

#[test]
fn files_are_searched_in_turn() {
    let files = vec![
        text_file("a", "hit one\n"),
        text_file("b", "nothing\n"),
        text_file("c", "HIT two\nhit three\n"),
    ];
    let out = fallback_regex_search("hit", true, "grep_search", &files, 0, 10).unwrap();
    assert_eq!(out.lines, vec!["a:1:hit one", "c:1:HIT two", "c:2:hit three"]);
    assert_eq!(out.truncation, None);
    let err = fallback_regex_search("(", true, "grep_search", &files, 0, 10).err().unwrap();
    assert_eq!(err.message(), "invalid grep_search regular expression");
    assert_eq!(err.refusal, PatternRefusal::Malformed);
}

#[test]
fn in_process_search_preserves_recursive_secret_exclusions() {
    let blocked = blocked_locations(Some("/home/ada"), None);
    assert!(!skips_entry(Some("visible.txt"), "/tmp/r/visible.txt", None, &blocked));
    assert!(!skips_entry(Some("visible.rs"), "/tmp/r/visible.rs", None, &blocked));
    assert!(skips_entry(
        Some("Service-Credentials.txt"),
        "/tmp/r/Service-Credentials.txt",
        None,
        &blocked
    ));
    assert!(skips_entry(Some("Assistant.TOML"), "/tmp/r/Assistant.TOML", None, &blocked));
    assert!(skips_entry(Some("Secrets"), "/tmp/r/Secrets", None, &blocked));
    assert!(skips_entry(Some("secret.rs"), "/tmp/r/Secrets/secret.rs", None, &blocked));
}

#[test]
fn context_and_separators_are_printed() {
    let (out, stop) = search_text(
        FallbackSearchOutput::new(),
        &matcher("hit"),
        "f",
        "a\nhit\nb\nc\nd\nhit\n",
        1,
        10,
    );
    assert!(!stop);
    assert_eq!(
        out.lines,
        vec!["f-1-a", "f:2:hit", "f-3-b", "--", "f-5-d", "f:6:hit"]
    );
    assert_eq!(out.match_count, 2);
    assert_eq!(out.truncation, None);
}

#[test]
fn patterns_are_regular_expressions_of_the_regex_crate() {
    let err = LineMatcher::compile("a(", false, "grep_search").err().unwrap();
    assert_eq!(err.refusal, PatternRefusal::Malformed);
    let err = LineMatcher::compile(r"(\w{1000}){1000}", false, "symbol_search").err().unwrap();
    assert_eq!(err.refusal, PatternRefusal::TooLarge);
    assert_eq!(err.message(), "invalid symbol_search regular expression");
    assert!(!matcher("ABC").matches("abc"));
    let loose = LineMatcher::compile("ABC", true, "grep_search").ok().unwrap();
    assert!(loose.matches("xabcx"));
    assert!(matcher(r"^\d+$").matches("123"));
    assert!(!matcher(r"^\d+$").matches("12a"));
}

#[test]
fn escaping_keeps_the_text_literal() {
    assert_eq!(escape_regex("a.b*c"), "a\\.b\\*c");
    assert_eq!(escape_regex("(x)|[y]"), "\\(x\\)\\|\\[y\\]");
    let escaped = escape_regex("fn(a)?");
    assert!(matcher(&escaped).matches("call fn(a)?"));
    assert!(!matcher(&escaped).matches("call fn(b)?"));
    assert!(symbol_pattern("App", "fn").contains("App"));
}

#[test]
fn only_small_text_files_are_searched() {
    assert!(admits_size(8_388_608));
    assert!(!admits_size(8_388_609));
    assert!(admits_file(3, &b"abc".to_vec()));
    assert!(!admits_file(3, &vec![b'a', 0, b'b']));
    assert!(!admits_file(u64::MAX, &b"abc".to_vec()));
}

#[test]
fn truncation_is_told() {
    assert_eq!(
        fallback_truncation_notice(Some(FallbackTruncation::ResultLimit), 7),
        Some("[... truncated at 7 results]".to_string())
    );
    assert_eq!(fallback_truncation_notice(None, 7), None);
    assert!(fallback_empty_truncation_message(Some(FallbackTruncation::OutputBytes), "matches")
        .is_some());
    assert_eq!(fallback_empty_truncation_message(None, "matches"), None);
    let empty = FallbackSearchOutput::new();
    assert!(!grep_fallback_report(&empty, 5).is_empty());
}

#[test]
fn symbol_lines_are_sorted_by_definition() {
    let lines = vec![
        "b.rs:2:use foo".to_string(),
        "a.rs:1:fn foo() {}".to_string(),
    ];
    let sorted = sort_symbol_lines(&lines);
    assert_eq!(sorted, vec!["a.rs:1:fn foo() {}", "b.rs:2:use foo"]);
}

#[test]
fn collected_results_stop_at_the_limit() {
    let mut collector = GrepCollector::new();
    assert!(collector.accept("/w/a.rs\x001:x".to_string(), 1));
    assert!(!collector.accept("/w/a.rs\x002:y".to_string(), 1));
    assert!(collector.truncated);
    assert!(!collector.accept("/w/a.rs\x003-z".to_string(), 1));
    let report = grep_report(&collector, SearchEnd::Exited, "", 1).unwrap();
    assert_eq!(report, "/w/a.rs:1:x\n[... truncated at 1 results]");
}

#[test]
fn context_lines_are_not_counted() {
    let mut collector = GrepCollector::new();
    assert!(collector.accept("/w/1-2:3.rs\x009-before".to_string(), 1));
    assert!(collector.accept("/w/1-2:3.rs\x0010:hit: 4-5".to_string(), 1));
    assert!(collector.accept("/w/1-2:3.rs\x0011-after 6:7".to_string(), 1));
    assert!(collector.accept("--".to_string(), 1));
    assert_eq!(collector.counted, 1);
    assert!(!collector.truncated);
    let report = grep_report(&collector, SearchEnd::Exited, "", 1).unwrap();
    assert_eq!(
        report,
        "/w/1-2:3.rs-9-before\n/w/1-2:3.rs:10:hit: 4-5\n/w/1-2:3.rs-11-after 6:7\n--"
    );
}

#[test]
fn lines_without_a_path_are_told_apart() {
    assert_eq!(read_rg_line("12:x-1:y"), (true, "12:x-1:y".to_string()));
    assert_eq!(read_rg_line("12-x:1:y"), (false, "12-x:1:y".to_string()));
    assert_eq!(read_rg_line("--"), (false, "--".to_string()));
    assert_eq!(read_rg_line(""), (false, String::new()));
    assert_eq!(read_rg_line("/w/a\x00x"), (false, "/w/a\x00x".to_string()));
    let note = "/w/a: binary file matches (found ...)";
    assert_eq!(read_rg_line(note), (false, note.to_string()));
}

#[test]
fn searches_end_by_exit_timeout_or_cancel() {
    assert_eq!(watch_search(true, 0, false), Some(SearchEnd::Canceled));
    assert_eq!(watch_search(false, 0, true), Some(SearchEnd::Exited));
    assert_eq!(watch_search(false, 0, false), None);
    assert_eq!(watch_search(false, 1_000_000, false), Some(SearchEnd::TimedOut));
    assert!(symbol_report("", false, "Missing").contains("Missing"));
    let mut kept = Vec::new();
    keep_stderr(&mut kept, &b"oops".to_vec());
    assert_eq!(kept, b"oops".to_vec());
}

fn facts() -> PathFacts {
    PathFacts {
        home: Some("/home/ada".to_string()),
        blocked: blocked_locations(Some("/home/ada"), None),
        escape: EscapeFacts {
            cwd: Some("/work".to_string()),
            target: None,
            ancestor: None,
        },
    }
}

fn excludes(plan: &SearchPlan, glob: &str) -> bool {
    match plan {
        SearchPlan::Ripgrep(args) => args.windows(2).any(|w| w[0] == "--iglob" && w[1] == glob),
        _ => panic!("expected ripgrep"),
    }
}

#[test]
fn linked_roots_keep_blocked_locations_out() {
    let symbol = |path: &str| SymbolRequest {
        query: "App".to_string(),
        path: path.to_string(),
        kind: "class".to_string(),
        glob: None,
    };
    let grep = |path: &str| GrepRequest {
        pattern: "x".to_string(),
        path: path.to_string(),
        glob: None,
        context_lines: 0,
        case_insensitive: false,
        max_results: 7,
    };
    for path in ["/home/ada", "/srv/link", "/home/ada/proj/.."] {
        let mut facts = facts();
        facts.escape.target = Some("/home/ada".to_string());
        let plans = [
            plan_grep_search(&grep(path), "/work", &facts, true).ok().unwrap(),
            plan_symbol_search(&symbol(path), "/work", &facts, true).ok().unwrap(),
        ];
        for plan in &plans {
            assert!(excludes(plan, "!.config/gh"), "{path}");
            assert!(excludes(plan, "!.config/gh/**"), "{path}");
            assert!(excludes(plan, "!.docker/config.json"), "{path}");
            assert!(!excludes(plan, "!etc/shadow"), "{path}");
            match plan {
                SearchPlan::Ripgrep(args) => assert_eq!(args[args.len() - 1], path),
                _ => panic!("expected ripgrep"),
            }
        }
    }
}

#[test]
fn searches_are_planned() {
    let mut request = GrepRequest {
        pattern: "-x".to_string(),
        path: "/srv".to_string(),
        glob: None,
        context_lines: 1,
        case_insensitive: true,
        max_results: 7,
    };
    match plan_grep_search(&request, "/work", &facts(), true) {
        Ok(SearchPlan::Ripgrep(args)) => {
            assert!(args.contains(&"--max-count=7".to_string()));
            assert!(args.contains(&"--null".to_string()));
            assert_eq!(args[args.len() - 3..], ["--", "-x", "/srv"]);
        }
        _ => panic!("expected ripgrep"),
    }
    match plan_grep_search(&request, "/work", &facts(), false) {
        Ok(SearchPlan::InProcess { root, max_results, .. }) => {
            assert_eq!(root, "/srv");
            assert_eq!(max_results, 7);
        }
        _ => panic!("expected a search in this process"),
    }
    request.path = "/home/ada/.ssh".to_string();
    assert!(plan_grep_search(&request, "/work", &facts(), true).is_err());
    let symbol = SymbolRequest {
        query: "App".to_string(),
        path: "/srv".to_string(),
        kind: "class".to_string(),
        glob: Some("*.rs".to_string()),
    };
    match plan_symbol_search(&symbol, "/work", &facts(), false) {
        Ok(SearchPlan::InProcess { pattern, max_results, .. }) => {
            assert_eq!(pattern, r"(class|struct)\s+App");
            assert_eq!(max_results, 100);
        }
        _ => panic!("expected a search in this process"),
    }
}

#[test]
fn chunks_add_up_to_the_whole_file() {
    let text: Vec<String> = (0..600)
        .map(|i| if i % 100 == 0 { "hit".to_string() } else { "miss".to_string() })
        .collect();
    let matcher = matcher("hit");
    let mut scan = FileScan::start();
    let mut rounds = 0;
    while !scan.is_done(&text) {
        scan = scan.advance(&matcher, &text, 0, 50);
        rounds += 1;
    }
    assert_eq!(rounds, 3);
    assert_eq!(scan.matches, vec![0, 100, 200, 300, 400, 500]);
    let (chunked, _) =
        finish_file(FallbackSearchOutput::new(), &matcher, "f", &text, scan, 0, 50);
    let (whole, _) = search_file(FallbackSearchOutput::new(), &matcher, "f", &text, 0, 50);
    assert_eq!(chunked.lines, whole.lines);
    assert_eq!(whole.lines[1], "--");
    assert_eq!(whole.lines[2], "f:101:hit");
}

fn tool_args(field: &str, text: &str, path: &str) -> JsonValue {
    JsonValue::Object(vec![
        JsonField {
            key: field.to_string(),
            value: json_string(text),
        },
        JsonField {
            key: "path".to_string(),
            value: json_string(path),
        },
    ])
}

/// What a search tool makes of its path.
fn searched_root(name: &str, args: &JsonValue, cwd: &str, facts: &PathFacts) -> Result<(), PathError> {
    let config = AssistantConfig {
        web_search_ready: false,
        web_search_provider: None,
        web_search_api_key: None,
        web_fetch_script: None,
    };
    match plan_tool_call(name, args, cwd, None, &config).unwrap() {
        ToolCall::ProjectSummary { .. } | ToolCall::FileTree { .. } => {
            resolve_checked_optional_arg(args, cwd, facts).map(|_| ())
        }
        ToolCall::SymbolSearch { query, path, kind, glob } => plan_symbol_search(
            &SymbolRequest { query, path, kind, glob },
            cwd,
            facts,
            true,
        )
        .map(|_| ()),
        ToolCall::GrepSearch {
            pattern,
            path,
            glob,
            context_lines,
            case_insensitive,
            max_results,
        } => plan_grep_search(
            &GrepRequest {
                pattern,
                path,
                glob,
                context_lines: context_lines as usize,
                case_insensitive,
                max_results: max_results as usize,
            },
            cwd,
            facts,
            true,
        )
        .map(|_| ()),
        _ => panic!("expected a search tool"),
    }
}

#[test]
fn search_tools_refuse_ssh_directory() {
    let ssh = "/home/ada/.ssh";
    let cases = [
        ("project_summary", tool_args("detail", "default", ssh)),
        ("file_tree", tool_args("detail", "default", ssh)),
        ("symbol_search", tool_args("query", "BEGIN", ssh)),
        ("grep_search", tool_args("pattern", "BEGIN", ssh)),
    ];
    for (name, args) in cases {
        let err = searched_root(name, &args, "/home/ada", &facts()).unwrap_err();
        assert!(
            err.message().contains("protected secret location"),
            "{} returned wrong error: {}",
            name,
            err.message()
        );
    }
}

#[test]
fn search_tools_reject_relative_cwd_escape() {
    let mut facts = facts();
    facts.escape = EscapeFacts {
        cwd: Some("/tmp/sandbox/project".to_string()),
        target: Some("/tmp/sandbox/outside".to_string()),
        ancestor: Some(Ancestor {
            path: "/tmp/sandbox/outside".to_string(),
            canonical: Some("/tmp/sandbox/outside".to_string()),
        }),
    };
    let cases = [
        ("project_summary", tool_args("detail", "default", "../outside")),
        ("file_tree", tool_args("detail", "default", "../outside")),
        ("symbol_search", tool_args("query", "outside_fn", "../outside")),
        ("grep_search", tool_args("pattern", "outside_fn", "../outside")),
    ];
    for (name, args) in cases {
        let err = searched_root(name, &args, "/tmp/sandbox/project", &facts).unwrap_err();
        assert!(
            err.message().contains("outside the working directory"),
            "{} returned wrong error: {}",
            name,
            err.message()
        );
    }
}

#[test]
fn search_tools_allow_absolute_non_sensitive_paths() {
    for (name, field) in [
        ("project_summary", "detail"),
        ("file_tree", "detail"),
        ("symbol_search", "query"),
        ("grep_search", "pattern"),
    ] {
        let args = tool_args(field, "outside_fn", "/tmp/sandbox/outside");
        assert!(searched_root(name, &args, "/tmp/sandbox/project", &facts()).is_ok());
    }
}
