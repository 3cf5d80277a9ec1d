use kaku::chat_app::{
    approval_notification_title, drain_palette_updates, header_user, parse_command, App, AppMode,
    AssistantSettings, ChatCommand, ConversationMeta, OverlayEvent, SkillRequest, Submitted, SuggestReply,
    Surroundings, MAX_DISPLAY_MESSAGES,
};
use kaku::chat_history::{
    bootstrap_reply, build_api_messages, collect_persisted_messages, export_text,
    restore_messages, trim_end_text, PersistedMessage, PromptParts,
};
use kaku::chat_input::{push_input_snapshot, InputLine, InputSnapshot, INPUT_UNDO_MAX};
use kaku::chat_models::{FetchReply, ModelFetch, Models};
use kaku::chat_prompt::{
    build_cwd_attachment, build_visible_snapshot_message, file_preview, format_user_message,
    git_status_summary, list_directory_entries, pick_overview_files, push_waza_instruction,
    resolve_input_attachments, slash_command_options_for_token,
    slash_command_submits_immediately, truncate_attachment_text, ApiMessage, DirEntry,
    DirectoryFacts, FilePreview, MessageAttachment, Skill, TerminalContext,
};
use kaku::chat_stream::{attach_responses_state, ChatStream, Message, Role, StreamMsg};
use kaku::commands::{Translation, Translations};
use kaku::json::{json_string, parse_json, JsonValue};
use kaku::registry::AssistantConfig;

fn test_context() -> TerminalContext {
    TerminalContext {
        cwd: "/tmp".to_string(),
        remote_host: None,
        visible_lines: vec!["line 1".to_string()],
        tab_snapshot: "cargo test\nerror: boom".to_string(),
        selected_text: "selected snippet".to_string(),
        panel_cols: 80,
        panel_rows: 24,
        last_exit_code: None,
        last_command_output: None,
    }
}

fn test_ctx(visible: &[&str], exit_code: Option<i32>, output: Option<&[&str]>) -> TerminalContext {
    TerminalContext {
        cwd: "/tmp".to_string(),
        remote_host: None,
        visible_lines: visible.iter().map(|s| s.to_string()).collect(),
        tab_snapshot: String::new(),
        selected_text: String::new(),
        panel_cols: 80,
        panel_rows: 24,
        last_exit_code: exit_code,
        last_command_output: output.map(|v| v.iter().map(|s| s.to_string()).collect()),
    }
}

fn directory() -> DirectoryFacts {
    DirectoryFacts {
        is_dir: true,
        entries: Ok(vec![
            "src/".to_string(),
            "Cargo.toml".to_string(),
            "README.md".to_string(),
        ]),
        git_status: None,
        previews: vec![],
    }
}

fn skills() -> Vec<Skill> {
    ["/check", "/hunt", "/write"]
        .iter()
        .map(|command| Skill {
            command: command.to_string(),
            description: format!("Run {}", command),
            instruction: format!("Active skill: {}\nApplies to the current user turn only.", command),
        })
        .collect()
}

fn item() -> JsonValue {
    parse_json(
        "{\"type\":\"message\",\"role\":\"assistant\",\"content\":[{\"type\":\"output_text\",\"text\":\"side answer\"}]}",
    )
    .unwrap()
}

fn quiet_stream(messages: Vec<Message>) -> ChatStream {
    ChatStream {
        messages,
        queue: vec![],
        receiving: true,
        is_streaming: true,
        pending_done: false,
        pending_err: None,
        pending_items: vec![],
        pending_approval: None,
        transient: false,
        next_is_context: false,
    }
}

fn models() -> Models {
    Models::new("deep", &vec![], Some("fast"), &vec![], None)
}

fn app() -> App {
    App::new(models(), "conv-1", &vec![], true, true, 80, 24)
}

fn around() -> Surroundings {
    Surroundings {
        prompt: PromptParts {
            system_prompt: "You are Kaku.".to_string(),
            environment: "cwd: /tmp".to_string(),
            max_history_pairs: 2,
            responses_mode: false,
            reasoning_roundtrip: false,
        },
        context: test_context(),
        facts: directory(),
        config: AssistantConfig {
            web_search_ready: false,
            web_search_provider: None,
            web_search_api_key: None,
            web_fetch_script: None,
        },
        tools_enabled: true,
    }
}

fn typed(app: &mut App, text: &str) {
    app.line.input = text.to_string();
    app.line.cursor = text.chars().count();
}

// ---- attachments and slash commands

#[test]
fn resolve_input_attachments_strips_known_tokens_and_keeps_unknown() {
    let (text, attachments) = resolve_input_attachments(
        "please inspect @cwd @foo and @tab @cwd",
        &test_context(),
        &directory(),
    )
    .expect("attachments");
    assert_eq!(text, "please inspect @foo and");
    assert_eq!(attachments.len(), 2);
    assert_eq!(attachments[0].label, "@cwd");
    assert_eq!(attachments[1].label, "@tab");
}

#[test]
fn resolve_input_attachments_requires_question_after_tokens() {
    let err = resolve_input_attachments("@cwd @tab", &test_context(), &directory()).unwrap_err();
    assert!(err.contains("Add a question"));
}

#[test]
fn slash_command_options_include_waza_skills() {
    let labels: Vec<String> = slash_command_options_for_token("/ch", &skills())
        .into_iter()
        .map(|option| option.label)
        .collect();
    assert_eq!(labels, vec!["/check"]);

    let labels: Vec<String> = slash_command_options_for_token("/", &skills())
        .into_iter()
        .map(|option| option.label)
        .collect();
    assert!(labels.contains(&"/new".to_string()));
    assert!(labels.contains(&"/resume".to_string()));
    assert!(labels.contains(&"/hunt".to_string()));
    assert!(labels.contains(&"/write".to_string()));
}

#[test]
fn longer_queries_narrow_the_options() {
    let labels = |token: &str| -> Vec<String> {
        slash_command_options_for_token(token, &skills())
            .into_iter()
            .map(|option| option.label)
            .collect()
    };
    assert_eq!(labels("/c"), vec!["/clear", "/config", "/check"]);
    assert_eq!(labels("/C"), labels("/c"));
    assert_eq!(labels("/cl"), vec!["/clear"]);
    assert_eq!(labels("/cx"), Vec::<String>::new());
}

#[test]
fn only_control_slash_commands_submit_immediately() {
    assert!(slash_command_submits_immediately("/new"));
    assert!(slash_command_submits_immediately("/resume"));
    assert!(!slash_command_submits_immediately("/check"));
    assert!(!slash_command_submits_immediately("/write"));
}

#[test]
fn push_waza_instruction_is_optional() {
    let mut out = Vec::new();
    push_waza_instruction(&mut out, None);
    assert!(out.is_empty());

    let skills = skills();
    let skill = skills.iter().find(|s| s.command == "/check").expect("check skill");
    push_waza_instruction(&mut out, Some(skill));
    assert_eq!(out.len(), 1);
    let content = out[0].content();
    assert!(content.contains("Active skill: /check"));
    assert!(content.contains("current user turn only"));
}

#[test]
fn resolve_input_attachments_requires_selection_for_selection_token() {
    let mut context = test_context();
    context.selected_text.clear();
    let err = resolve_input_attachments("explain @selection", &context, &directory()).unwrap_err();
    assert!(err.contains("@selection"));
}

#[test]
fn format_user_message_wraps_attached_context() {
    let msg = format_user_message(
        "what failed?",
        &vec![MessageAttachment::new(
            "tab",
            "@tab",
            "Current pane terminal snapshot.\nTreat this as read-only context.\n\nerror".into(),
        )],
    );
    assert!(msg.contains("Attached context:"));
    assert!(msg.contains("[@tab]"));
    assert!(msg.contains("User request:\nwhat failed?"));
    assert_eq!(format_user_message("plain", &vec![]), "plain");
}

#[test]
fn build_cwd_attachment_summarizes_directory() {
    let entries = list_directory_entries(&vec![
        DirEntry { name: "README.md".to_string(), is_dir: false },
        DirEntry { name: "Cargo.toml".to_string(), is_dir: false },
        DirEntry { name: "src".to_string(), is_dir: true },
    ]);
    let picked = pick_overview_files(&vec!["Cargo.toml".to_string(), "README.md".to_string()]);
    let facts = DirectoryFacts {
        is_dir: true,
        entries: Ok(entries),
        git_status: git_status_summary(true, "## main\n M a.rs\n"),
        previews: picked
            .into_iter()
            .map(|name| FilePreview { name, text: file_preview(Some("# Demo\nhello\n"), false) })
            .collect(),
    };
    let attachment = build_cwd_attachment(&test_context(), &facts).expect("cwd attachment");
    assert_eq!(attachment.label, "@cwd");
    assert!(attachment.payload.contains("Directory summary"));
    assert!(attachment.payload.contains("README.md"));
    assert!(attachment.payload.contains("Cargo.toml"));
    assert!(attachment.payload.contains("src/"));
}

#[test]
fn long_attachments_are_cut() {
    let long = "x".repeat(20_000);
    let cut = truncate_attachment_text(&long);
    assert!(cut.len() < long.len());
    assert!(cut.contains("truncated"));
    assert_eq!(truncate_attachment_text("short"), "short");
}

// ---- terminal snapshots

#[test]
fn empty_visible_lines_returns_none() {
    let ctx = test_ctx(&[], None, None);
    assert!(build_visible_snapshot_message(&ctx).is_none());
}

#[test]
fn blank_only_lines_return_none() {
    let ctx = test_ctx(&["", "   ", "\t"], None, None);
    assert!(build_visible_snapshot_message(&ctx).is_none());
}

#[test]
fn snapshot_prefixes_each_line_with_term() {
    let ctx = test_ctx(&["$ cargo build", "error: something"], None, None);
    let msg = build_visible_snapshot_message(&ctx).expect("should produce message");
    let body = msg.content();
    assert!(body.contains("TERM|"), "each line must be prefixed TERM|");
    let term_lines: Vec<&str> = body.lines().filter(|l| l.starts_with("TERM| ")).collect();
    assert_eq!(
        term_lines,
        vec!["TERM| $ cargo build", "TERM| error: something"]
    );
    assert!(
        body.contains("untrusted"),
        "snapshot must be labelled untrusted"
    );
    assert!(body.contains("End of terminal snapshot"));
}

#[test]
fn successful_exit_omits_error_context() {
    let ctx = test_ctx(&["$ echo hi", "hi"], Some(0), Some(&["hi"]));
    let msg = build_visible_snapshot_message(&ctx).expect("should produce message");
    assert!(!msg.content().contains("failed with exit code"));
}

#[test]
fn failed_exit_appends_out_lines() {
    let ctx = test_ctx(
        &["$ cargo build"],
        Some(1),
        Some(&["error[E0308]: mismatched types"]),
    );
    let msg = build_visible_snapshot_message(&ctx).expect("should produce message");
    let body = msg.content();
    assert!(body.contains("failed with exit code 1"));
    assert!(body.contains("OUT|"), "error lines must be prefixed OUT|");
    assert!(body.contains("mismatched types"));
}

#[test]
fn nonzero_exit_with_empty_output_does_not_crash() {
    let ctx = test_ctx(&["$ bad_cmd"], Some(127), Some(&[]));
    assert!(build_visible_snapshot_message(&ctx).is_some());
}

#[test]
fn snapshot_is_capped_at_twenty_lines() {
    let lines: Vec<&str> = (0..30).map(|_| "line").collect();
    let ctx = test_ctx(&lines, None, None);
    let msg = build_visible_snapshot_message(&ctx).expect("should produce message");
    let count = msg
        .content()
        .lines()
        .filter(|l| l.starts_with("TERM|"))
        .count();
    assert!(
        count <= 20,
        "snapshot must be capped at 20 lines, got {}",
        count
    );
}

#[test]
fn visible_snapshot_message_prefixes_each_line() {
    let ctx = test_ctx(&["line 1", "```", "sudo rm -rf /"], None, None);
    let msg = build_visible_snapshot_message(&ctx).expect("snapshot message");
    let content = msg.content();
    assert!(content.contains("TERM| line 1"));
    assert!(content.contains("TERM| ```"));
    assert!(content.contains("TERM| sudo rm -rf /"));
    assert!(!content.contains("```terminal"));
}

// ---- the input line

#[test]
fn empty_input_skipped() {
    let mut stack: Vec<InputSnapshot> = Vec::new();
    push_input_snapshot(&mut stack, "", 0);
    assert!(stack.is_empty(), "empty input should not snapshot");
}

#[test]
fn push_records_input_and_cursor() {
    let mut stack = Vec::new();
    push_input_snapshot(&mut stack, "hello", 3);
    assert_eq!(stack.len(), 1);
    assert_eq!(stack[0].input, "hello");
    assert_eq!(stack[0].cursor, 3);
}

#[test]
fn fifo_evicts_oldest_when_cap_reached() {
    let mut stack = Vec::new();
    for i in 0..INPUT_UNDO_MAX {
        push_input_snapshot(&mut stack, &format!("v{i}"), i);
    }
    assert_eq!(stack.len(), INPUT_UNDO_MAX);
    assert_eq!(stack[0].input, "v0");
    push_input_snapshot(&mut stack, "overflow", 0);
    assert_eq!(stack.len(), INPUT_UNDO_MAX);
    assert_eq!(stack[0].input, "v1", "oldest should be dropped");
    assert_eq!(stack.last().unwrap().input, "overflow");
}

#[test]
fn pop_returns_last_pushed() {
    let mut stack = Vec::new();
    push_input_snapshot(&mut stack, "a", 1);
    push_input_snapshot(&mut stack, "ab", 2);
    let snap = stack.pop().expect("non-empty");
    assert_eq!(snap.input, "ab");
    assert_eq!(snap.cursor, 2);
    let snap = stack.pop().expect("non-empty");
    assert_eq!(snap.input, "a");
}

#[test]
fn edits_can_be_undone() {
    let mut line = InputLine::new();
    assert!(line.paste("hello\r\u{7}world"));
    assert_eq!(line.input, "hello\nworld");
    assert_eq!(line.cursor, 11);
    line.replace_token(0, 5, "bye");
    assert_eq!(line.input, "bye\nworld");
    assert!(line.undo_input());
    assert_eq!(line.input, "hello\nworld");
    assert!(!line.undo_input());
}

#[test]
fn pickers_offer_and_accept() {
    let mut line = InputLine::new();
    line.paste("look @t");
    assert_eq!(line.attachment_picker_options("sel").len(), 1);
    assert!(line.accept_attachment_picker("sel"));
    assert_eq!(line.input, "look @tab ");
    let mut line = InputLine::new();
    line.paste("/");
    let all = line.slash_picker_options(&skills()).len();
    assert!(all > 10);
    assert!(line.move_slash_picker(-1, &skills()));
    assert_eq!(line.selected_slash_command(&skills()), Some("/write".to_string()));
    assert!(line.accept_slash_picker(&skills()));
    assert_eq!(line.input, "/write ");
    assert!(line.current_slash_query().is_none());
}

// ---- streaming

#[test]
fn transient_responses_state_never_creates_persistable_assistant_turn() {
    let mut messages = vec![Message::text(Role::Assistant, "side answer", false, true)];
    let mut pending = vec![item()];

    attach_responses_state(&mut messages, &mut pending, true);

    assert!(pending.is_empty());
    assert_eq!(messages.len(), 1);
    assert!(messages[0].is_context);
    assert!(messages[0].responses_items.is_empty());
    assert!(!messages.iter().any(|message| !message.is_context));
}

#[test]
fn full_responses_state_makes_earlier_tool_round_text_display_only() {
    let mut messages = vec![
        Message::text(Role::Assistant, "before tool", false, false),
        Message::tool_event("pwd", ""),
        Message::text(Role::Assistant, "final", false, false),
    ];
    let mut pending = vec![item()];

    attach_responses_state(&mut messages, &mut pending, false);

    assert!(messages[0].is_context);
    assert!(!messages[2].is_context);
    assert_eq!(messages[2].responses_items.len(), 1);
    assert!(pending.is_empty());
}

#[test]
fn tokens_are_released_by_grapheme() {
    let mut stream = quiet_stream(vec![]);
    let out = stream.drain_tokens(
        vec![
            StreamMsg::AssistantStart,
            StreamMsg::Token("e\u{301}ab👩‍👩‍👧cd".to_string()),
        ],
        false,
    );
    assert!(out.changed);
    assert_eq!(out.consumed, 2);
    assert_eq!(stream.messages[0].content, "e\u{301}ab👩‍👩‍👧cd");
    assert!(stream.queue.is_empty());
}

#[test]
fn long_answers_are_paced() {
    let mut stream = quiet_stream(vec![Message::text(Role::Assistant, "", false, false)]);
    stream.drain_tokens(vec![StreamMsg::Token("x".repeat(100))], false);
    assert_eq!(stream.messages[0].content.len(), 24);
    stream.drain_tokens(vec![], false);
    assert_eq!(stream.messages[0].content.len(), 40);
    for _ in 0..60 {
        stream.drain_tokens(vec![], false);
    }
    assert_eq!(stream.messages[0].content, "x".repeat(100));
    let out = stream.drain_tokens(vec![], true);
    assert!(out.notify_complete && out.save_history && out.extract_memories);
    assert!(!stream.is_streaming);
    assert!(stream.messages[0].complete);
}

#[test]
fn draining_to_the_end_keeps_every_token() {
    let mut stream = quiet_stream(vec![Message::text(Role::Assistant, "so: ", false, false)]);
    let tokens = ["e\u{301}", "", &"x".repeat(90), "👩‍👩‍👧!", &"y".repeat(7)];
    let mut events: Vec<StreamMsg> =
        tokens.iter().map(|t| StreamMsg::Token(t.to_string())).collect();
    events.push(StreamMsg::Done);
    let mut changed = stream.drain_tokens(events, false).changed;
    while changed {
        changed = stream.drain_tokens(vec![], false).changed;
    }
    assert_eq!(stream.messages.len(), 1);
    assert_eq!(stream.messages[0].content, format!("so: {}", tokens.concat()));
    assert!(stream.messages[0].complete);
    assert!(!stream.is_streaming && !stream.pending_done && !stream.receiving);
    assert!(stream.queue.is_empty());
}

#[test]
fn tools_and_errors_are_shown() {
    let mut stream = quiet_stream(vec![]);
    stream.drain_tokens(
        vec![
            StreamMsg::ToolStart { name: "pwd".to_string(), args_preview: "".to_string() },
            StreamMsg::ToolDone { result_preview: "/tmp".to_string() },
            StreamMsg::ToolFailed { error: "late".to_string() },
            StreamMsg::Failed("boom".to_string()),
        ],
        false,
    );
    assert_eq!(stream.messages[0].content, "/tmp");
    assert!(stream.messages[0].complete);
    assert_eq!(stream.messages[1].content, "[tool error: late]");
    assert_eq!(stream.messages[2].content, "[error: boom]");
    assert!(!stream.is_streaming);
}

#[test]
fn approvals_stop_the_round() {
    let mut stream = quiet_stream(vec![]);
    let summary = "y".repeat(150);
    let out = stream.drain_tokens(
        vec![
            StreamMsg::ApprovalRequired { summary: summary.clone() },
            StreamMsg::Done,
        ],
        false,
    );
    assert_eq!(out.consumed, 1);
    assert!(matches!(out.remaining[..], [StreamMsg::Done]));
    assert_eq!(out.approval_notice, Some("y".repeat(100)));
    assert_eq!(stream.pending_approval, Some(summary));
    assert!(stream.is_streaming);
}

#[test]
fn empty_answers_are_dropped() {
    let mut stream = quiet_stream(vec![Message::user_text("hi", vec![])]);
    stream.drain_tokens(vec![StreamMsg::AssistantStart, StreamMsg::Done], false);
    assert_eq!(stream.messages.len(), 1);
}

#[test]
fn transient_answers_are_not_saved() {
    let mut stream = quiet_stream(vec![]);
    stream.start_stream(true);
    let out = stream.drain_tokens(
        vec![StreamMsg::AssistantStart, StreamMsg::Token("x".to_string()), StreamMsg::Done],
        false,
    );
    assert!(!out.save_history && !out.notify_complete);
    assert!(stream.messages[0].is_context);
    assert!(collect_persisted_messages(&stream.messages).is_empty());
}

// ---- history

#[test]
fn conversations_are_read_back() {
    let messages = vec![
        Message::user_text("q1", vec![MessageAttachment::new("tab", "@tab", "p".to_string())]),
        Message::tool_event("pwd", ""),
        Message::text(Role::Assistant, "a1", true, false),
        Message::text(Role::Assistant, "note", true, true),
        Message::user_text("q2", vec![]),
        Message::text(Role::Assistant, "growing", false, false),
    ];
    let saved = collect_persisted_messages(&messages);
    let rows: Vec<(String, String, u32)> = saved
        .iter()
        .map(|m| (m.role.clone(), m.content.clone(), m.round_id))
        .collect();
    assert_eq!(
        rows,
        vec![
            ("user".to_string(), "q1".to_string(), 0),
            ("assistant".to_string(), "a1".to_string(), 0),
            ("user".to_string(), "q2".to_string(), 1),
        ]
    );
    let back = restore_messages(&saved);
    assert_eq!(back.len(), 3);
    assert_eq!(back[0].attachments[0].label, "@tab");
    assert_eq!(back[1].content, "a1");
    assert_eq!(bootstrap_reply(&messages), Some("q1".to_string()));
}

#[test]
fn exports_end_without_a_divider() {
    let messages = vec![
        Message::user_text("q", vec![]),
        Message::text(Role::Assistant, "a", true, false),
    ];
    let saved = collect_persisted_messages(&messages);
    assert_eq!(export_text(&saved), "**User**\n\nq\n\n---\n\n**Assistant**\n\na");
    assert_eq!(trim_end_text("xabab", "ab"), "x");
}

#[test]
fn requests_hold_the_recent_rounds() {
    let around = around();
    let mut messages = Vec::new();
    for i in 0..5 {
        messages.push(Message::user_text(&format!("q{}", i), vec![]));
        messages.push(Message::text(Role::Assistant, &format!("a{}", i), true, false));
    }
    let sent = build_api_messages(&around.prompt, None, &around.context, &messages);
    let texts: Vec<&str> = sent.iter().map(|m| m.content()).collect();
    assert_eq!(texts[0], "You are Kaku.");
    assert_eq!(texts[1], "cwd: /tmp");
    assert!(texts[2].contains("TERM| line 1"));
    assert_eq!(&texts[3..], &["q3", "a3", "q4", "a4"]);
}

#[test]
fn transcripts_are_sent_as_items() {
    let mut around = around();
    around.prompt.responses_mode = true;
    let mut answer = Message::text(Role::Assistant, "a", true, false);
    answer.responses_items = vec![item(), item()];
    let sent = build_api_messages(&around.prompt, None, &around.context, &vec![answer]);
    assert_eq!(sent.len(), 5);
    assert!(matches!(sent[4], ApiMessage::ResponsesItem(_)));
    around.prompt.responses_mode = false;
    around.prompt.reasoning_roundtrip = true;
    let plain = Message::text(Role::Assistant, "a", true, false);
    let sent = build_api_messages(&around.prompt, None, &around.context, &vec![plain]);
    assert!(matches!(sent[3], ApiMessage::AssistantWithReasoning { .. }));
}

// ---- models

#[test]
fn models_are_resolved_by_priority() {
    let choices = vec!["b".to_string(), "deep".to_string(), "c".to_string()];
    let curated = Models::new("deep", &choices, Some("fast"), &vec![], Some("c"));
    assert_eq!(curated.available, vec!["deep", "b", "c"]);
    assert_eq!(curated.current_model(), "c");
    assert_eq!(models().available, vec!["deep", "fast"]);
    let fetching = Models::new("deep", &vec![], None, &vec![], None);
    assert!(matches!(fetching.fetch, ModelFetch::Loading));
    assert!(fetching.awaited);
}

#[test]
fn fetched_models_never_change_the_choice_silently() {
    let mut models = Models::new("deep", &vec![], None, &vec![], None);
    assert!(!models.drain_model_fetch(FetchReply::Pending, None));
    assert!(models.drain_model_fetch(FetchReply::List(vec!["x".to_string()]), Some("deep")));
    match &models.fetch {
        ModelFetch::Failed(e) => assert!(e.contains("saved model 'deep' is not in the server's model list")),
        _ => panic!("expected a failure"),
    }
    let mut models = Models::new("deep", &vec![], None, &vec![], None);
    let list: Vec<String> = (0..40).map(|i| format!("m{}", i)).collect();
    models.drain_model_fetch(FetchReply::List(list), Some("m7"));
    assert_eq!(models.available.len(), 30);
    assert_eq!(models.current_model(), "m7");
    let mut models = Models::new("deep", &vec![], None, &vec![], None);
    assert!(models.drain_model_fetch(FetchReply::Disconnected, None));
    assert!(matches!(models.fetch, ModelFetch::Failed(_)));
    let (text, _) = models.cmd_model(Some("nope"));
    assert_eq!(text, "Model 'nope' not found. Available: deep");
    let (text, saved) = models.cmd_model(None);
    assert_eq!(text, "* deep");
    assert!(!saved);
}

// ---- the overlay

#[test]
fn lines_are_told_apart() {
    assert!(matches!(parse_command("/new"), ChatCommand::New));
    assert!(matches!(parse_command("/model"), ChatCommand::Model(None)));
    match parse_command("/model  fast ") {
        ChatCommand::Model(Some(name)) => assert_eq!(name, "fast"),
        _ => panic!("expected a model"),
    }
    match parse_command("/btw why?") {
        ChatCommand::Btw(question) => assert_eq!(question, "why?"),
        _ => panic!("expected a side question"),
    }
    assert!(matches!(parse_command("/btw"), ChatCommand::Talk));
    assert!(matches!(parse_command("/newer"), ChatCommand::Talk));
}

#[test]
fn questions_start_a_stream() {
    let mut app = app();
    typed(&mut app, "  why? @tab ");
    let request = match app.submit(None, &around()) {
        Submitted::Asked(request) => request,
        _ => panic!("expected a request"),
    };
    assert_eq!(request.model, "deep");
    assert!(!request.tools.is_empty());
    assert!(request.messages.last().unwrap().content().contains("User request:\nwhy?"));
    assert!(app.stream.is_streaming);
    assert_eq!(app.line.input, "");
    assert_eq!(app.stream.messages.len(), 1);
}

#[test]
fn remote_panes_have_no_tools() {
    let mut app = app();
    typed(&mut app, "why?");
    let mut around = around();
    around.context.remote_host = Some("server".to_string());
    match app.submit(None, &around) {
        Submitted::Asked(request) => assert!(request.tools.is_empty()),
        _ => panic!("expected a request"),
    }
}

#[test]
fn refused_lines_stay_in_the_input() {
    let mut app = app();
    typed(&mut app, "@cwd");
    assert!(matches!(app.submit(None, &around()), Submitted::Refused));
    assert_eq!(app.line.input, "@cwd");
    assert!(app.stream.messages[0].is_context);
    typed(&mut app, "   ");
    assert!(matches!(app.submit(None, &around()), Submitted::Ignored));
}

#[test]
fn skills_make_the_request() {
    let mut app = app();
    typed(&mut app, "/check this");
    let request = SkillRequest {
        skill: skills().remove(0),
        text: Ok("Check: this".to_string()),
    };
    match app.submit(Some(&request), &around()) {
        Submitted::Asked(sent) => {
            assert!(sent.messages[1].content().contains("Active skill: /check"));
            assert_eq!(sent.messages.last().unwrap().content(), "Check: this");
        }
        _ => panic!("expected a request"),
    }
}

#[test]
fn the_display_list_is_bounded() {
    let mut app = app();
    for i in 0..310 {
        app.stream.messages.push(Message::user_text(&format!("m{}", i), vec![]));
    }
    typed(&mut app, "last");
    app.submit(None, &around());
    assert_eq!(app.stream.messages.len(), MAX_DISPLAY_MESSAGES);
    assert_eq!(app.stream.messages.last().unwrap().content, "last");
}

#[test]
fn side_questions_leave_no_trace_behind() {
    let mut app = app();
    let request = app.submit_btw("why?", &around()).unwrap();
    assert!(request.tools.is_empty());
    assert!(request.messages.last().unwrap().content().contains("side-question"));
    assert!(app.stream.transient);
    assert!(app.submit_btw("again?", &around()).is_none());
    assert!(collect_persisted_messages(&app.stream.messages).is_empty());
}

#[test]
fn commands_clear_the_line() {
    let mut app = app();
    typed(&mut app, "/status");
    match app.submit(None, &around()) {
        Submitted::Command(ChatCommand::Status) => {}
        _ => panic!("expected a command"),
    }
    assert_eq!(app.line.input, "");
    app.cmd_status("openai", "- a\n  - b\nx\n", "/tmp", 20, 50);
    let text = &app.stream.messages.last().unwrap().content;
    assert_eq!(
        text,
        "Provider   openai\nModel      deep\nRound      0 / 20\nMemory     2/50 entries\nCwd        /tmp"
    );
    app.cmd_memory("/soul", "- a", 50);
    assert!(app.stream.messages.last().unwrap().content.contains("/soul/MEMORY.md   (1/50 entries)"));
    assert_eq!(app.cmd_model(Some("fast")), Some("fast".to_string()));
    assert_eq!(app.current_model(), "fast");
    assert!(app.cmd_export().is_none());
    assert!(app.cmd_suggest().is_none());
    app.cmd_config(&AssistantSettings {
        provider: "p".to_string(),
        api_mode: "chat".to_string(),
        fast_model: None,
        chat_model: "deep".to_string(),
        chat_model_choices: vec![],
        base_url: "u".to_string(),
        chat_tools_enabled: true,
        native_web_search: false,
        web_search_provider: None,
    });
    let text = &app.stream.messages.last().unwrap().content;
    assert!(text.contains("chat_model_choices (dynamic)"));
    assert!(text.contains("web_search        disabled"));
}

fn saved(role: &str, content: &str) -> PersistedMessage {
    PersistedMessage {
        role: role.to_string(),
        content: content.to_string(),
        reasoning_content: String::new(),
        responses_items: vec![],
        attachments: vec![],
        round_id: 0,
    }
}

#[test]
fn conversations_are_left_and_resumed() {
    let history = vec![saved("user", "q"), saved("assistant", "a")];
    let mut app = App::new(models(), "conv-1", &history, true, true, 80, 24);
    let outgoing = app.leave_conversation().unwrap();
    assert_eq!(outgoing.id, "conv-1");
    assert_eq!(outgoing.messages.len(), 2);
    app.begin_conversation(Some("conv-2"));
    assert_eq!(app.active_id, "conv-2");
    assert!(app.leave_conversation().is_none());
    let index = vec![
        ConversationMeta { id: "conv-2".to_string(), summary: "two".to_string() },
        ConversationMeta { id: "conv-1".to_string(), summary: "one".to_string() },
    ];
    app.enter_resume_picker(&index);
    match &app.mode {
        AppMode::ResumePicker { items, .. } => assert_eq!(items.len(), 1),
        AppMode::Chat => panic!("expected the picker"),
    }
    let (meta, _) = app.pick_conversation(0).unwrap();
    assert_eq!(meta.id, "conv-1");
    app.resume_conversation(&meta, &Some(history));
    assert_eq!(app.active_id, "conv-1");
    assert_eq!(app.stream.messages.last().unwrap().content, "Resumed: one");
    app.clear_conversation();
    assert!(app.stream.messages.is_empty());
}

#[test]
fn suggestions_are_shown() {
    let history = vec![saved("user", "q"), saved("assistant", "a")];
    let mut app = App::new(models(), "c", &history, true, true, 80, 24);
    assert_eq!(app.cmd_suggest().unwrap().len(), 2);
    assert!(!app.drain_suggest(SuggestReply::Pending));
    assert!(app.drain_suggest(SuggestReply::Suggestion("go on".to_string())));
    assert_eq!(
        app.stream.messages.last().unwrap().content,
        "Suggested next message: go on"
    );
    assert!(!app.drain_suggest(SuggestReply::Failed));
}

#[test]
fn the_overlay_waits_and_spins() {
    let mut app = app();
    assert_eq!(app.poll_timeout_ms(), 500);
    app.stream.is_streaming = true;
    assert_eq!(app.poll_timeout_ms(), 30);
    assert_eq!(app.try_advance_spinner(139), None);
    assert_eq!(app.try_advance_spinner(300), Some(280));
    assert_eq!(app.spinner_frame, 2);
    assert_eq!(app.spinner_char(), "✸");
    assert_eq!(app.current_input_prompt(), "  ✸ ");
    assert_eq!(app.on_timeout(10), (true, None));
    assert_eq!(app.input_visible_rows(9), 5);
    assert_eq!(app.msg_area_height(1), 20);
    assert_eq!(app.content_width(), 76);
    app.flash = Some("switched".to_string());
    assert!(!app.expire_flash(1499));
    assert!(app.expire_flash(1500));
    app.resize(100, 40);
    assert_eq!(app.input_wrap_width(), 98);
    app.stream.messages.push(Message::text(Role::Assistant, "half", false, false));
    assert_eq!(app.quit().len(), 1);
}

#[test]
fn new_users_are_greeted() {
    let app = App::new(models(), "c", &vec![], false, false, 80, 24);
    assert!(app.onboarding_pending);
    assert!(app.stream.messages[0].content.contains("What should I call you?"));
    assert!(App::new(models(), "c", &vec![], true, false, 80, 24).stream.messages.is_empty());
}

#[derive(Clone, Copy)]
struct Palette {
    luminance: f32,
}

impl Palette {
    fn is_light(&self) -> bool {
        self.luminance > 0.5
    }
}

#[test]
fn running_chat_applies_latest_palette_and_invalidates_display_cache() {
    let light = Palette { luminance: 0.98 };
    let dark = Palette { luminance: 0.0 };
    let mut colors = dark;
    let mut display_lines_dirty = false;

    assert!(drain_palette_updates(vec![light], &mut colors, &mut display_lines_dirty));
    assert!(colors.is_light());
    assert!(display_lines_dirty);

    display_lines_dirty = false;
    assert!(drain_palette_updates(vec![light, dark], &mut colors, &mut display_lines_dirty));
    assert!(!colors.is_light());
    assert!(display_lines_dirty);
    assert!(!drain_palette_updates(vec![], &mut colors, &mut display_lines_dirty));
}

#[test]
fn labels_come_from_the_translations() {
    let t = Translations {
        entries: vec![Translation {
            key: "ai.header.user".to_string(),
            text: "You".to_string(),
        }],
    };
    assert_eq!(header_user(&t), "You");
    assert_eq!(approval_notification_title(&t), "ai.approval.title");
    assert_eq!(json_string("x").as_str(), Some("x"));
}

#[test]
fn the_overlay_takes_its_events() {
    let mut app = app();
    app.dirty = false;
    let out = app.handle_event(OverlayEvent::Paste("\u{7}".to_string()));
    assert!(!out.redraw && !app.dirty);
    let out = app.handle_event(OverlayEvent::Paste("hi".to_string()));
    assert!(out.redraw && app.dirty);
    assert_eq!(app.line.input, "hi");
    let out = app.handle_event(OverlayEvent::Paste(" there".to_string()));
    assert!(out.redraw);
    assert!(app.undo_input());
    assert_eq!(app.line.input, "hi");
    assert!(!app.undo_input());
    assert!(app.handle_event(OverlayEvent::Key { quits: false }).redraw);
    assert!(app.handle_event(OverlayEvent::Mouse).redraw);
    assert!(!app.handle_event(OverlayEvent::Other).redraw);
    app.handle_event(OverlayEvent::Resized { cols: 10, rows: 5 });
    assert_eq!((app.cols, app.rows), (10, 5));
    let out = app.handle_event(OverlayEvent::Timeout { elapsed_ms: 500 });
    assert!(!out.redraw && out.advance_ms.is_none());
    app.stream.is_streaming = true;
    let out = app.handle_event(OverlayEvent::Timeout { elapsed_ms: 500 });
    assert!(out.redraw);
    assert_eq!(out.advance_ms, Some(420));
    app.stream.messages.push(Message::text(Role::Assistant, "half", false, false));
    let out = app.handle_event(OverlayEvent::Key { quits: true });
    assert_eq!(out.saved.map(|list| list.len()), Some(1));
}
