use kaku::json::{json_string, JsonField, JsonNumber, JsonValue};
use kaku::registry::{all_tools, budget_for, to_api_schema, AssistantConfig};
use kaku::shell::{
    adopted_cwd, background_started, first_poll, kept_of_chunk, next_poll, plan_poll, plan_shell,
    poll_report, shell_exec_wrapper, shell_report, watch_shell, ExitStatus, OutputBudget, PollStep,
    ShellEnd, ShellError,
};
use kaku::tools::{memories_or_note, output_cap, plan_tool_call, ToolCall, ToolError};

fn object(fields: Vec<(&str, JsonValue)>) -> JsonValue {
    JsonValue::Object(
        fields
            .into_iter()
            .map(|(key, value)| JsonField {
                key: key.to_string(),
                value,
            })
            .collect(),
    )
}

fn number(n: u64) -> JsonValue {
    JsonValue::Number(JsonNumber {
        unsigned: Some(n),
        text: format!("{}", n),
    })
}

fn config(provider: Option<&str>) -> AssistantConfig {
    AssistantConfig {
        web_search_ready: provider.is_some(),
        web_search_provider: provider.map(|p| p.to_string()),
        web_search_api_key: provider.map(|_| "key".to_string()),
        web_fetch_script: None,
    }
}

#[test]
fn shell_exec_wrapper_uses_fish_syntax() {
    let wrapped = shell_exec_wrapper("false", "/tmp/kaku-cwd", "/usr/local/bin/fish");

    assert_eq!(
        wrapped,
        "false; set __kaku_rc $status; printf '%s' (pwd) > /tmp/kaku-cwd; exit $__kaku_rc"
    );
}

#[test]
fn shell_exec_wrapper_keeps_posix_syntax_for_zsh_and_bash() {
    for shell in ["/bin/bash", "/bin/zsh"] {
        let wrapped = shell_exec_wrapper("false", "/tmp/kaku-cwd", shell);

        assert_eq!(
            wrapped,
            "false; __kaku_rc=$?; printf '%s' \"$(pwd)\" > /tmp/kaku-cwd; exit $__kaku_rc"
        );
    }
}

#[test]
fn shell_requests_need_a_command() {
    let args = object(vec![("command", json_string("ls"))]);
    let request = plan_shell(&args, "/work", None).unwrap();
    assert_eq!(request.command, "ls");
    assert_eq!(request.cwd, "/work");
    assert!(matches!(
        plan_shell(&object(vec![]), "/work", None),
        Err(ShellError::MissingCommand)
    ));
    let away = object(vec![("command", json_string("ls")), ("cwd", json_string("~/x"))]);
    assert!(matches!(plan_shell(&away, "/work", None), Err(ShellError::Path(_))));
}

#[test]
fn output_is_kept_up_to_the_cap() {
    assert_eq!(kept_of_chunk(10, 0, 100), 10);
    assert_eq!(kept_of_chunk(10, 95, 100), 5);
    assert_eq!(kept_of_chunk(10, 100, 100), 0);
    assert_eq!(kept_of_chunk(10, 200, 100), 0);
}

#[test]
fn streams_share_one_cap() {
    let mut budget = OutputBudget::new(10);
    let (mut out, mut err) = (String::new(), String::new());
    budget.pump(&mut out, &b"abcdefgh".to_vec());
    budget.pump(&mut err, &b"ABCDEFGH".to_vec());
    assert_eq!((out.as_str(), err.as_str()), ("abcdefgh", "AB"));
    assert_eq!((budget.seen, budget.kept), (16, 10));
    budget.pump(&mut out, &b"more".to_vec());
    assert_eq!(out.len() + err.len(), 10);
    assert_eq!(budget.seen, 20);
}

#[test]
fn decoded_text_is_cut_to_the_cap() {
    let mut budget = OutputBudget::new(10);
    let mut out = String::new();
    budget.pump(&mut out, &vec![0xff, b'a', 0xff, 0xff, 0xff]);
    assert_eq!(out, "\u{fffd}a\u{fffd}\u{fffd}");
    assert_eq!(out.len(), 10);
    budget.pump(&mut out, &b"b".to_vec());
    assert_eq!(out.len(), 10);
    let mut text = String::new();
    OutputBudget::new(5).keep(&mut text, "aéé€");
    assert_eq!(text, "aéé");
    OutputBudget::new(4).keep(&mut text, "aéé€");
    assert_eq!(text, "aééaé");
}

#[test]
fn shell_commands_end_by_exit_timeout_or_cancel() {
    assert_eq!(watch_shell(true, 0, false), Some(ShellEnd::Canceled));
    assert_eq!(watch_shell(false, 0, true), Some(ShellEnd::Exited));
    assert_eq!(watch_shell(false, 0, false), None);
    assert_eq!(watch_shell(false, 1_000_000, false), Some(ShellEnd::TimedOut));
}

#[test]
fn shell_reports_tell_status_and_streams() {
    let ok = ExitStatus { success: true, code: Some(0) };
    let report = shell_report("out\n", "", None, 100, ShellEnd::Exited, Some(ok));
    assert!(report.starts_with("out\n"));
    let bad = ExitStatus { success: false, code: Some(3) };
    let report = shell_report("", "boom", None, 100, ShellEnd::Exited, Some(bad));
    assert!(report.contains("boom"));
    assert!(report.contains('3'));
    assert_ne!(
        shell_report("x", "", None, 100, ShellEnd::TimedOut, None),
        shell_report("x", "", None, 100, ShellEnd::Canceled, None)
    );
}

#[test]
fn working_directories_are_adopted() {
    assert_eq!(adopted_cwd("/old", Some("/new")), "/new");
    assert_eq!(adopted_cwd("/old", None), "/old");
    assert_eq!(adopted_cwd("/old", Some("  ")), "/old");
}

#[test]
fn polling_waits_until_the_deadline() {
    let done = ExitStatus { success: true, code: Some(0) };
    assert_eq!(first_poll(5, Some(done)), PollStep::Report(Some(done)));
    assert_eq!(first_poll(5, None), PollStep::Wait);
    assert_eq!(first_poll(0, None), PollStep::Report(None));
    assert_eq!(next_poll(false, false, true, None), PollStep::Wait);
    assert_eq!(next_poll(true, false, true, None), PollStep::Report(None));
    assert_eq!(next_poll(false, false, true, Some(done)), PollStep::Report(Some(done)));
    assert!(poll_report(42, None, "log").contains("42"));
    assert!(background_started(42).contains("42"));
    assert!(matches!(plan_poll(&object(vec![])), Err(ShellError::MissingPid)));
    let (pid, _) = plan_poll(&object(vec![("pid", number(42))])).unwrap();
    assert_eq!(pid, 42);
}

#[test]
fn offered_tools_have_schemas_and_are_dispatched() {
    let tools = all_tools(&config(Some("brave")));
    assert!(tools.iter().any(|t| t.name == "shell_exec"));
    assert!(tools.iter().any(|t| t.name == "web_search"));
    assert!(!all_tools(&config(None)).iter().any(|t| t.name == "web_search"));
    let shell = tools.iter().find(|t| t.name == "shell_exec").unwrap();
    let schema = to_api_schema(shell);
    assert_eq!(schema.get_str("type"), Some("function"));
    let function = schema.get("function").unwrap();
    assert_eq!(function.get_str("name"), Some("shell_exec"));
    assert_eq!(
        function.get("parameters").unwrap().get_str("type"),
        Some("object")
    );
}

#[test]
fn unknown_tools_fail() {
    let call = plan_tool_call("nope", &object(vec![]), "/w", None, &config(None));
    match call {
        Err(ToolError::UnknownTool(name)) => assert_eq!(name, "nope"),
        _ => panic!("expected an unknown tool"),
    }
    assert!(matches!(
        plan_tool_call("pwd", &object(vec![]), "/w", None, &config(None)),
        Ok(ToolCall::Pwd)
    ));
}

#[test]
fn tool_arguments_are_checked() {
    let config = config(Some("brave"));
    let missing = |name: &str| plan_tool_call(name, &object(vec![]), "/w", None, &config);
    assert!(matches!(missing("web_fetch"), Err(ToolError::MissingUrl)));
    assert!(matches!(missing("grep_search"), Err(ToolError::MissingPattern)));
    assert!(matches!(missing("symbol_search"), Err(ToolError::MissingQuery)));
    assert!(matches!(missing("http_request"), Err(ToolError::MissingMethod)));
    assert!(matches!(missing("web_search"), Err(ToolError::Search(_))));
    assert!(matches!(missing("shell_exec"), Err(ToolError::Shell(_))));
    let url = object(vec![("url", json_string("ftp://x"))]);
    assert!(matches!(
        plan_tool_call("web_fetch", &url, "/w", None, &config),
        Err(ToolError::UnsupportedUrl)
    ));
    let grep = object(vec![("pattern", json_string("x")), ("max_results", number(100_000))]);
    match plan_tool_call("grep_search", &grep, "/w", None, &config) {
        Ok(ToolCall::GrepSearch { max_results, path, .. }) => {
            assert!(max_results < 100_000);
            assert_eq!(path, "/w");
        }
        _ => panic!("expected a search"),
    }
}

#[test]
fn memories_are_read_or_noted() {
    assert_eq!(memories_or_note(Some("- a")), "- a");
    assert_eq!(memories_or_note(None), "(no memories yet)");
}

#[test]
fn budgets_depend_on_tool_and_detail() {
    assert!(budget_for("fs_read", "brief") <= budget_for("fs_read", "default"));
    assert!(budget_for("fs_read", "default") <= budget_for("fs_read", "full"));
    let brief = object(vec![("detail", json_string("brief"))]);
    assert_eq!(output_cap("fs_read", &brief), budget_for("fs_read", "brief"));
    assert_eq!(
        output_cap("fs_read", &object(vec![])),
        budget_for("fs_read", "default")
    );
}
