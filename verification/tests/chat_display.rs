use kaku::chat_app::App;
use kaku::chat_display::{
    emit_reasoning_lines, emit_user_lines, markdown_jobs, place_code, place_inline, plain_lines,
    plan_display, reasoning_width, remaining_width, BlockStyle, CodeRows, DiffKind, Display,
    DisplayLine, InlineSpan, InlineStyle, LayoutJob, MdBlock, PlanItem, Shape,
};
use kaku::chat_models::Models;
use kaku::chat_stream::{Message, Role};

fn plain(text: &str) -> InlineSpan {
    InlineSpan {
        text: text.to_string(),
        style: InlineStyle::Plain,
    }
}

fn text_of(line: &DisplayLine) -> String {
    match line {
        DisplayLine::Text { segments, .. } => segments.iter().map(|s| s.text.as_str()).collect(),
        _ => panic!("expected text"),
    }
}

#[test]
fn heading_marker_prefixes_body_text() {
    let blocks = vec![MdBlock::Heading {
        level: 2,
        text: "Section".to_string(),
    }];
    let jobs = markdown_jobs(&blocks, 80);
    match &jobs[0] {
        LayoutJob::Inline { head, text, .. } => {
            assert_eq!(head[0].style, InlineStyle::HeadingMarker);
            assert_eq!(head[0].text, "## ");
            assert_eq!(text, "Section");
        }
        _ => panic!("expected inline markdown"),
    }
}

#[test]
fn code_of_one_language_is_laid_out_together() {
    let code = |text: &str, lang: &str| MdBlock::CodeLine {
        text: text.to_string(),
        diff: DiffKind::Unmarked,
        lang: lang.to_string(),
    };
    let blocks = vec![code("a", "rust"), code("b", "rust"), code("c", "sh"), MdBlock::Blank];
    let jobs = markdown_jobs(&blocks, 20);
    assert_eq!(jobs.len(), 3);
    match &jobs[0] {
        LayoutJob::Code { lines, lang, .. } => {
            assert_eq!(lines.len(), 2);
            assert_eq!(lang, "rust");
        }
        _ => panic!("expected code"),
    }
    assert!(matches!(jobs[2], LayoutJob::Ready(DisplayLine::Blank)));
}

#[test]
fn list_items_leave_room_for_their_marker() {
    let blocks = vec![MdBlock::ListItem {
        marker: "• ".to_string(),
        text: "one".to_string(),
    }];
    match &markdown_jobs(&blocks, 10)[0] {
        LayoutJob::Inline { width, .. } => assert_eq!(*width, 8),
        _ => panic!("expected inline markdown"),
    }
    let wide = vec![MdBlock::ListItem {
        marker: "中文 ".to_string(),
        text: "one".to_string(),
    }];
    match &markdown_jobs(&wide, 10)[0] {
        LayoutJob::Inline { width, .. } => assert_eq!(*width, 5),
        _ => panic!("expected inline markdown"),
    }
    assert_eq!(remaining_width(3, 5), 1);
    assert_eq!(reasoning_width(3), 0);
    let lines = place_inline(
        &vec![vec![plain("one")], vec![plain("more")]],
        &Shape::Item("• ".to_string()),
    );
    assert_eq!(text_of(&lines[0]), "• one");
    assert_eq!(text_of(&lines[1]), "more");
    assert!(matches!(
        lines[1],
        DisplayLine::Text { block: BlockStyle::ListContinuation, .. }
    ));
}

#[test]
fn rules_span_the_width() {
    match &markdown_jobs(&vec![MdBlock::Hr], 4)[0] {
        LayoutJob::Ready(line) => assert_eq!(text_of(line), "────"),
        _ => panic!("expected a line"),
    }
}

#[test]
fn diffs_keep_their_marks() {
    let lines = place_code(&vec![
        CodeRows { rows: vec![vec![plain("+a")]], diff: DiffKind::Add },
        CodeRows { rows: vec![vec![plain("b")]], diff: DiffKind::Unmarked },
    ]);
    assert!(matches!(lines[0], DisplayLine::Text { block: BlockStyle::DiffAdd, .. }));
    assert!(matches!(lines[1], DisplayLine::Text { block: BlockStyle::Code, .. }));
}

#[test]
fn plain_text_is_shown_line_by_line() {
    let lines = plain_lines("a\n\nb");
    assert_eq!(lines.len(), 3);
    assert_eq!(lines[1].text, "");
    let mut out = Vec::new();
    emit_user_lines(&mut out, &vec![vec![vec![plain("a")]], vec![vec![]]]);
    assert_eq!(out.len(), 2);
    assert_eq!(text_of(&out[1]), "");
    emit_reasoning_lines(&mut out, &vec![vec![vec![plain("hm")]]]);
    assert!(matches!(
        out[2],
        DisplayLine::Text { block: BlockStyle::Quote, role: Role::Assistant, .. }
    ));
}

#[test]
fn tools_stand_in_the_header_of_their_answer() {
    let mut answer = Message::text(Role::Assistant, "done", true, false);
    answer.reasoning_content = "thought".to_string();
    let messages = vec![
        Message::user_text("q", vec![]),
        Message::tool_event("pwd", "{}"),
        answer,
        Message::tool_event("ls", ""),
    ];
    let plan = plan_display(&messages, false);
    assert!(matches!(
        &plan[0],
        PlanItem::Line(DisplayLine::Header { role: Role::User, tools }) if tools.is_empty()
    ));
    assert!(matches!(plan[1], PlanItem::UserText(_)));
    assert!(matches!(
        &plan[3],
        PlanItem::Line(DisplayLine::Header { role: Role::Assistant, tools })
            if tools.len() == 1 && tools[0].name == "pwd"
    ));
    assert!(matches!(
        plan[4],
        PlanItem::Line(DisplayLine::ThinkingHeader { char_count: 7, expanded: false })
    ));
    assert!(matches!(&plan[5], PlanItem::Markdown { keep: true, .. }));
    assert!(matches!(
        plan.last().unwrap(),
        PlanItem::Line(DisplayLine::Header { role: Role::Assistant, .. })
    ));
    let waiting = plan_display(&vec![Message::text(Role::Assistant, "", false, false)], true);
    assert!(matches!(waiting[1], PlanItem::Line(DisplayLine::LoadingDot)));
}

#[test]
fn finished_answers_are_remembered() {
    let models = Models::new("m", &vec![], Some("m"), &vec![], None);
    let mut app = App::new(models, "c", &vec![], true, true, 80, 24);
    app.stream.messages.push(Message::text(Role::Assistant, "hello", true, false));
    let mut display = Display::new();
    let (width, plan) = display.plan_rebuild(&app).unwrap();
    assert_eq!(width, 76);
    let laid: Vec<Vec<DisplayLine>> = plan
        .iter()
        .map(|item| match item {
            PlanItem::Markdown { content, .. } => {
                assert!(display.memo.recall(content, width, false).is_none());
                place_inline(&vec![vec![plain(content)]], &Shape::Block(BlockStyle::Normal))
            }
            _ => vec![],
        })
        .collect();
    display.rebuild_display_cache(&mut app, &plan, &laid, width, false);
    assert_eq!(display.lines.len(), 3);
    assert_eq!(text_of(&display.lines[1]), "hello");
    assert!(display.plan_rebuild(&app).is_none());
    let again = display.memo.recall("hello", width, false).unwrap();
    assert_eq!(text_of(&again[0]), "hello");
    assert!(display.memo.recall("hello", width, true).is_none());
    assert!(display.memo.recall("hello", 10, false).is_none());
    // What the memo has is not laid out again, and shows the same.
    assert!(!plan.iter().any(|item| display.needs_layout(item, width, false)));
    assert!(plan.iter().any(|item| display.needs_layout(item, width, true)));
    let nothing: Vec<Vec<DisplayLine>> = plan.iter().map(|_| vec![]).collect();
    display.rebuild_display_cache(&mut app, &plan, &nothing, width, true);
    assert_eq!(text_of(&display.lines[1]), "hello", "an up-to-date display stays");
    app.dirty = true;
    display.rebuild_display_cache(&mut app, &plan, &nothing, width, false);
    assert_eq!(display.lines.len(), 3);
    assert_eq!(text_of(&display.lines[1]), "hello");
    assert_eq!(display.memo.entries.len(), 1);
    assert!(!app.dirty);
}
