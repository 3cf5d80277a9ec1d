//! The chat overlay: what a submitted line does, the slash commands, and the
//! rounds of its event loop.
use crate::chat_history::{
    PersistedMessage, PersistedView, PromptParts, build_api_messages, collect_persisted_messages,
    count_memory_entries, divider, export_text, exported, memory_entries, persisted,
    persisted_views, request_messages, restore_messages, restored, without_ends,
};
use crate::chat_input::{InputLine, pasted, pushed, snapshot_views, spliced};
use crate::chat_models::{
    FetchReply, Models, ModelsView, current_of, fetched, model_reply, place_of,
};
use crate::chat_prompt::{
    ApiMessage, ApiView, DirectoryFacts, Skill, TerminalContext, add_message, attachment_views,
    message_views, resolve_input_attachments, resolved_input,
};
use crate::chat_stream::{
    ChatStream, DrainOutcome, Message, MessageView, Role, StreamMsg, StreamView, approval_note,
    cancelled, closing_keeps_messages, conversation, drained, ending, event_views, last_closed,
    push_message, splits_whole, started, text_message, user_message,
};
use crate::commands::{Translations, translated};
use crate::json::{JsonValue, JsonView, json_views, opt_str};
use crate::registry::{
    AssistantConfig, ToolView, all_tools, offered_tools, to_api_schema, tool_schema, tool_views,
};
use crate::text::{
    chars_of, concat2, concat3, decimal, decimal_of, join, joined, opt_view, same, starts_with,
    string_of_range, trim, trimmed, views,
};
use vstd::arithmetic::div_mod::{
    lemma_add_mod_noop_right, lemma_fundamental_div_mod_converse, lemma_small_mod,
};
use vstd::prelude::*;
use vstd::string::*;

verus! {

/// Maximum number of messages kept in the in-memory display list. When this is
/// exceeded the oldest messages are dropped so long sessions do not accumulate
/// unbounded RAM. Only chat messages count; tool events are included.
pub const MAX_DISPLAY_MESSAGES: usize = 300;

/// 140ms/frame (~560ms per cycle): calm, unhurried pulse. The overlay polls at
/// 30ms while streaming, so the spinner advances on time.
pub const SPINNER_INTERVAL_MS: u128 = 140;

/// The frames of the sparkle pulse.
pub const SPINNER_FRAME_COUNT: usize = 4;

/// Cap on how many wrapped rows the input box can occupy before it starts to
/// scroll internally. Keeps the message area from collapsing when a user
/// pastes or types a long prompt while still showing enough context to edit.
pub const MAX_INPUT_VISIBLE_ROWS: usize = 5;

/// How long a status flash stays in the top bar.
pub const FLASH_MS: u64 = 1500;

/// How long the overlay waits for input while something moves.
pub const BUSY_POLL_MS: u64 = 30;

/// How long the overlay waits for input while nothing moves.
pub const IDLE_POLL_MS: u64 = 500;

// ---------------------------------------------------------------------------
// State
// ---------------------------------------------------------------------------

/// A saved conversation.
#[derive(Debug)]
pub struct ConversationMeta {
    pub id: String,
    pub summary: String,
}

pub struct MetaView {
    pub id: Seq<char>,
    pub summary: Seq<char>,
}

impl View for ConversationMeta {
    type V = MetaView;

    open spec fn view(&self) -> MetaView {
        MetaView { id: self.id@, summary: self.summary@ }
    }
}

pub open spec fn meta_views(list: Seq<ConversationMeta>) -> Seq<MetaView> {
    list.map_values(|m: ConversationMeta| m@)
}

/// UI mode: normal chat or conversation picker.
#[derive(Debug)]
pub enum AppMode {
    Chat,
    ResumePicker { items: Vec<ConversationMeta>, cursor: usize },
}

pub enum ModeView {
    Chat,
    ResumePicker { items: Seq<MetaView>, cursor: usize },
}

impl View for AppMode {
    type V = ModeView;

    open spec fn view(&self) -> ModeView {
        match *self {
            AppMode::Chat => ModeView::Chat,
            AppMode::ResumePicker { items, cursor } => ModeView::ResumePicker {
                items: meta_views(items@),
                cursor,
            },
        }
    }
}

pub struct LineView {
    pub input: Seq<char>,
    pub cursor: usize,
    pub undo: Seq<(Seq<char>, usize)>,
    pub picker_index: usize,
}

pub open spec fn line_view(line: InputLine) -> LineView {
    LineView {
        input: line.input@,
        cursor: line.cursor,
        undo: snapshot_views(line.undo@),
        picker_index: line.picker_index,
    }
}

#[derive(Debug)]
pub struct App {
    pub mode: AppMode,
    pub stream: ChatStream,
    pub line: InputLine,
    /// Lines scrolled up from the bottom (0 = show the latest messages).
    pub scroll_offset: usize,
    pub models: Models,
    /// Set while a follow-up suggestion is in flight.
    pub awaits_suggestion: bool,
    /// Temporary status shown in the top bar.
    pub flash: Option<String>,
    pub cols: usize,
    pub rows: usize,
    /// True when messages or layout changed and the display must be rebuilt.
    pub dirty: bool,
    /// ID of the current active conversation.
    pub active_id: String,
    pub spinner_frame: usize,
    /// True until the user submits their first message in a brand-new session.
    /// Cleared (and flag file created) on first submit so onboarding never repeats.
    pub onboarding_pending: bool,
    /// Whether the user has clicked the input row during the current streaming
    /// response. Reset on every new submit.
    pub input_clicked: bool,
    /// When true, reasoning blocks are expanded in the display.
    pub show_thinking: bool,
}

pub struct AppView {
    pub mode: ModeView,
    pub stream: StreamView,
    pub line: LineView,
    pub scroll_offset: usize,
    pub models: ModelsView,
    pub awaits_suggestion: bool,
    pub flash: Option<Seq<char>>,
    pub cols: usize,
    pub rows: usize,
    pub dirty: bool,
    pub active_id: Seq<char>,
    pub spinner_frame: usize,
    pub onboarding_pending: bool,
    pub input_clicked: bool,
    pub show_thinking: bool,
}

impl View for App {
    type V = AppView;

    open spec fn view(&self) -> AppView {
        AppView {
            mode: self.mode@,
            stream: self.stream@,
            line: line_view(self.line),
            scroll_offset: self.scroll_offset,
            models: self.models@,
            awaits_suggestion: self.awaits_suggestion,
            flash: opt_view(self.flash),
            cols: self.cols,
            rows: self.rows,
            dirty: self.dirty,
            active_id: self.active_id@,
            spinner_frame: self.spinner_frame,
            onboarding_pending: self.onboarding_pending,
            input_clicked: self.input_clicked,
            show_thinking: self.show_thinking,
        }
    }
}

/// The greeting of a first session.
pub open spec fn onboarding_text() -> Seq<char> {
    "Hi! I'm Kaku AI. Three quick things to help me help you:\n\n1. What should I call you?\n2. What reply style do you prefer? (e.g. concise, detailed, technical, casual)\n3. What do you typically work on? (languages, tools, current projects)\n\nAnswer in one message, or just ask your question. You can tell me later."@
}

pub open spec fn note(text: Seq<char>) -> MessageView {
    text_message(Role::Assistant, text, true, true)
}

pub open spec fn with_messages(app: AppView, messages: Seq<MessageView>) -> AppView {
    AppView { stream: StreamView { messages, ..app.stream }, ..app }
}

/// The chat with an info message at its end.
pub open spec fn informed(app: AppView, text: Seq<char>) -> AppView {
    AppView { dirty: true, ..with_messages(app, app.stream.messages.push(note(text))) }
}

/// The chat with an empty input line.
pub open spec fn line_cleared(app: AppView) -> AppView {
    AppView { line: LineView { input: seq![], cursor: 0, ..app.line }, ..app }
}

pub open spec fn quiet_stream(messages: Seq<MessageView>) -> StreamView {
    StreamView {
        messages,
        queue: seq![],
        receiving: false,
        is_streaming: false,
        pending_done: false,
        pending_err: None,
        pending_items: seq![],
        pending_approval: None,
        transient: false,
        next_is_context: false,
    }
}

/// The messages a session starts with.
pub open spec fn first_messages(history: Seq<PersistedView>, new_user: bool) -> Seq<MessageView> {
    let messages = restored(history);
    if new_user && messages.len() == 0 {
        messages.push(text_message(Role::Assistant, onboarding_text(), true, false))
    } else {
        messages
    }
}

// ---------------------------------------------------------------------------
// Submitting
// ---------------------------------------------------------------------------

/// What a submitted line asks for.
#[derive(Debug)]
pub enum ChatCommand {
    New,
    Resume,
    Clear,
    Export,
    Memory,
    Status,
    Suggest,
    Config,
    Model(Option<String>),
    /// A side question, not saved to history.
    Btw(String),
    Talk,
}

pub enum CommandView {
    New,
    Resume,
    Clear,
    Export,
    Memory,
    Status,
    Suggest,
    Config,
    Model(Option<Seq<char>>),
    Btw(Seq<char>),
    Talk,
}

impl View for ChatCommand {
    type V = CommandView;

    open spec fn view(&self) -> CommandView {
        match *self {
            ChatCommand::New => CommandView::New,
            ChatCommand::Resume => CommandView::Resume,
            ChatCommand::Clear => CommandView::Clear,
            ChatCommand::Export => CommandView::Export,
            ChatCommand::Memory => CommandView::Memory,
            ChatCommand::Status => CommandView::Status,
            ChatCommand::Suggest => CommandView::Suggest,
            ChatCommand::Config => CommandView::Config,
            ChatCommand::Model(name) => CommandView::Model(opt_view(name)),
            ChatCommand::Btw(question) => CommandView::Btw(question@),
            ChatCommand::Talk => CommandView::Talk,
        }
    }
}

/// What a trimmed line asks for.
pub open spec fn command_of_input(raw: Seq<char>) -> CommandView {
    if raw == "/new"@ {
        CommandView::New
    } else if raw == "/resume"@ {
        CommandView::Resume
    } else if raw == "/clear"@ {
        CommandView::Clear
    } else if raw == "/export"@ {
        CommandView::Export
    } else if raw == "/memory"@ {
        CommandView::Memory
    } else if raw == "/status"@ {
        CommandView::Status
    } else if raw == "/suggest"@ {
        CommandView::Suggest
    } else if raw == "/config"@ {
        CommandView::Config
    } else if raw == "/model"@ || "/model "@.is_prefix_of(raw) {
        let arg = trimmed(raw.skip("/model"@.len() as int));
        CommandView::Model(
            if arg.len() == 0 {
                None
            } else {
                Some(arg)
            },
        )
    } else if "/btw "@.is_prefix_of(raw) && trimmed(raw.skip("/btw "@.len() as int)).len() > 0 {
        CommandView::Btw(trimmed(raw.skip("/btw "@.len() as int)))
    } else {
        CommandView::Talk
    }
}

/// The rest of a text behind its first `n` characters, trimmed.
fn trimmed_rest(raw: &str, n: usize) -> (r: String)
    requires
        n <= raw@.len(),
    ensures
        r@ == trimmed(raw@.skip(n as int)),
{
    let cs = chars_of(raw);
    assert(cs@.subrange(n as int, cs.len() as int) =~= raw@.skip(n as int));
    let rest = string_of_range(&cs, n, cs.len());
    trim(rest.as_str())
}

/// What a trimmed line asks for.
pub fn parse_command(raw: &str) -> (r: ChatCommand)
    ensures
        r@ == command_of_input(raw@),
{
    proof {
        reveal_strlit("/model");
        reveal_strlit("/model ");
        reveal_strlit("/btw ");
    }
    if same(raw, "/new") {
        ChatCommand::New
    } else if same(raw, "/resume") {
        ChatCommand::Resume
    } else if same(raw, "/clear") {
        ChatCommand::Clear
    } else if same(raw, "/export") {
        ChatCommand::Export
    } else if same(raw, "/memory") {
        ChatCommand::Memory
    } else if same(raw, "/status") {
        ChatCommand::Status
    } else if same(raw, "/suggest") {
        ChatCommand::Suggest
    } else if same(raw, "/config") {
        ChatCommand::Config
    } else if same(raw, "/model") || starts_with(raw, "/model ") {
        let arg = trimmed_rest(raw, 6);
        if arg.as_str().is_empty() {
            ChatCommand::Model(None)
        } else {
            ChatCommand::Model(Some(arg))
        }
    } else {
        if starts_with(raw, "/btw ") {
            let question = trimmed_rest(raw, 5);
            if !question.as_str().is_empty() {
                return ChatCommand::Btw(question);
            }
        }
        ChatCommand::Talk
    }
}

/// A skill that the line invokes, and the request text it makes of the line.
#[derive(Debug)]
pub struct SkillRequest {
    pub skill: Skill,
    pub text: Result<String, String>,
}

/// A request that goes to the model.
#[derive(Debug)]
pub struct ChatRequest {
    pub messages: Vec<ApiMessage>,
    pub model: String,
    pub tools: Vec<JsonValue>,
}

pub struct RequestView {
    pub messages: Seq<ApiView>,
    pub model: Seq<char>,
    pub tools: Seq<JsonView>,
}

impl View for ChatRequest {
    type V = RequestView;

    open spec fn view(&self) -> RequestView {
        RequestView {
            messages: message_views(self.messages@),
            model: self.model@,
            tools: json_views(self.tools@),
        }
    }
}

/// What is left to do for a submitted line.
#[derive(Debug)]
pub enum Submitted {
    /// The line was empty.
    Ignored,
    /// A slash command to run.
    Command(ChatCommand),
    /// The line was refused; the chat says why.
    Refused,
    /// A request to send.
    Asked(ChatRequest),
}

pub enum SubmittedView {
    Ignored,
    Command(CommandView),
    Refused,
    Asked(RequestView),
}

impl View for Submitted {
    type V = SubmittedView;

    open spec fn view(&self) -> SubmittedView {
        match *self {
            Submitted::Ignored => SubmittedView::Ignored,
            Submitted::Command(c) => SubmittedView::Command(c@),
            Submitted::Refused => SubmittedView::Refused,
            Submitted::Asked(r) => SubmittedView::Asked(r@),
        }
    }
}

/// What the chat knows of its surroundings when a line is submitted.
#[derive(Debug)]
pub struct Surroundings {
    pub prompt: PromptParts,
    pub context: TerminalContext,
    pub facts: DirectoryFacts,
    pub config: AssistantConfig,
    /// Whether the assistant's tools are enabled.
    pub tools_enabled: bool,
}

/// The messages with the oldest dropped, so that there is room for one more.
pub open spec fn with_room(list: Seq<MessageView>) -> Seq<MessageView> {
    if list.len() >= MAX_DISPLAY_MESSAGES {
        list.skip(list.len() - MAX_DISPLAY_MESSAGES + 1)
    } else {
        list
    }
}

pub open spec fn schemas(tools: Seq<ToolView>) -> Seq<JsonView> {
    tools.map_values(|t: ToolView| tool_schema(t))
}

/// The tools that go with a request. Tools execute on this machine; inside an
/// ssh session the pane's directory belongs to the remote host, so running them
/// locally would target wrong (same-named local) paths.
pub open spec fn request_tools(around: Surroundings, transient: bool) -> Seq<JsonView> {
    if around.tools_enabled && !transient && around.context.remote_host is None {
        schemas(offered_tools(around.config))
    } else {
        seq![]
    }
}

/// The text that a line asks with: its own, or what the invoked skill makes of
/// it.
pub open spec fn request_text(raw: Seq<char>, skill: Option<SkillRequest>) -> Result<
    Seq<char>,
    Seq<char>,
> {
    match skill {
        Some(s) => match s.text {
            Ok(t) => Ok(t@),
            Err(e) => Err(e@),
        },
        None => Ok(raw),
    }
}

pub open spec fn active_skill(skill: Option<SkillRequest>) -> Option<Skill> {
    match skill {
        Some(s) => Some(s.skill),
        None => None,
    }
}

pub open spec fn opt_request(skill: Option<&SkillRequest>) -> Option<SkillRequest> {
    match skill {
        Some(s) => Some(*s),
        None => None,
    }
}

/// The chat once a question is in place and its answer is awaited.
pub open spec fn question_placed(app: AppView, question: MessageView) -> AppView {
    AppView {
        stream: started(
            StreamView { messages: with_room(app.stream.messages).push(question), ..app.stream },
            false,
        ),
        line: LineView { input: seq![], cursor: 0, picker_index: 0, ..app.line },
        scroll_offset: 0,
        input_clicked: false,
        dirty: true,
        ..app
    }
}

/// The chat after a line that is no command, and what is left to do.
pub open spec fn talked(
    app: AppView,
    raw: Seq<char>,
    skill: Option<SkillRequest>,
    around: Surroundings,
) -> (AppView, SubmittedView) {
    match request_text(raw, skill) {
        Err(e) => (informed(app, e), SubmittedView::Refused),
        Ok(text) => match resolved_input(text, around.context, around.facts) {
            Err(e) => (informed(app, e), SubmittedView::Refused),
            Ok((question, attachments)) => {
                let after = question_placed(app, user_message(question, attachments));
                (
                    after,
                    SubmittedView::Asked(
                        RequestView {
                            messages: request_messages(
                                around.prompt,
                                active_skill(skill),
                                around.context,
                                after.stream.messages,
                            ),
                            model: current_of(app.models),
                            tools: request_tools(around, app.stream.transient),
                        },
                    ),
                )
            },
        },
    }
}

/// The chat after a line is submitted, and what is left to do.
pub open spec fn submitted(
    app: AppView,
    skill: Option<SkillRequest>,
    around: Surroundings,
) -> (AppView, SubmittedView) {
    let raw = trimmed(app.line.input);
    let marked = AppView { onboarding_pending: false, ..app };
    if raw.len() == 0 {
        (app, SubmittedView::Ignored)
    } else if command_of_input(raw) is Talk {
        talked(marked, raw, skill, around)
    } else {
        (line_cleared(marked), SubmittedView::Command(command_of_input(raw)))
    }
}

/// The schemas of the tools that go with a request.
fn tools_of_request(around: &Surroundings, transient: bool) -> (r: Vec<JsonValue>)
    ensures
        json_views(r@) == request_tools(*around, transient),
{
    let mut out: Vec<JsonValue> = Vec::new();
    if around.tools_enabled && !transient && around.context.remote_host.is_none() {
        let tools = all_tools(&around.config);
        let ghost all = tool_views(tools@);
        let mut i: usize = 0;
        while i < tools.len()
            invariant
                i <= tools.len(),
                all == tool_views(tools@),
                out.len() == i,
                forall|k: int| 0 <= k < i ==> (#[trigger] out@[k])@ == tool_schema(all[k]),
            decreases tools.len() - i,
        {
            assert(all[i as int] == tools@[i as int]@);
            out.push(to_api_schema(&tools[i]));
            i += 1;
        }
        assert(json_views(out@) =~= schemas(all));
    } else {
        assert(json_views(out@) =~= seq![]);
    }
    out
}

/// What a side question is sent as.
pub open spec fn side_question(question: Seq<char>) -> Seq<char> {
    "[/btw side-question: answer inline, do not store in history]: "@ + question
}

/// The request of a side question: it has no tools.
pub open spec fn side_request(app: AppView, question: Seq<char>, around: Surroundings) -> RequestView {
    RequestView {
        messages: request_messages(
            around.prompt,
            None,
            around.context,
            app.stream.messages.push(
                text_message(Role::User, "/btw "@ + question, true, true),
            ),
        ).push(ApiView::User(side_question(question))),
        model: current_of(app.models),
        tools: seq![],
    }
}

/// The chat once a side question is asked. Its message counts as context, so
/// that it is excluded from persistence and later requests.
pub open spec fn side_asked(app: AppView, question: Seq<char>) -> AppView {
    AppView {
        stream: started(
            StreamView {
                messages: app.stream.messages.push(
                    text_message(Role::User, "/btw "@ + question, true, true),
                ),
                ..app.stream
            },
            true,
        ),
        input_clicked: false,
        dirty: true,
        ..app
    }
}

// ---------------------------------------------------------------------------
// Conversations
// ---------------------------------------------------------------------------

/// The chat with its stream stopped, if it had one.
pub open spec fn settled(app: AppView) -> AppView {
    if app.stream.is_streaming {
        AppView { stream: cancelled(app.stream), ..app }
    } else {
        app
    }
}

/// A conversation that is left behind: it gets a summary.
#[derive(Debug)]
pub struct Outgoing {
    pub id: String,
    pub messages: Vec<PersistedMessage>,
}

pub struct OutgoingView {
    pub id: Seq<char>,
    pub messages: Seq<PersistedView>,
}

pub open spec fn opt_outgoing(o: Option<Outgoing>) -> Option<OutgoingView> {
    match o {
        Some(o) => Some(OutgoingView { id: o.id@, messages: persisted_views(o.messages@) }),
        None => None,
    }
}

/// What is left behind of the chat: nothing where nothing was said.
pub open spec fn outgoing_of(app: AppView) -> Option<OutgoingView> {
    let messages = persisted(app.stream.messages);
    if messages.len() == 0 {
        None
    } else {
        Some(OutgoingView { id: app.active_id, messages })
    }
}

/// The chat once a fresh conversation is begun.
pub open spec fn begun(app: AppView, id: Option<Seq<char>>) -> AppView {
    AppView {
        active_id: match id {
            Some(new_id) => new_id,
            None => app.active_id,
        },
        scroll_offset: 0,
        dirty: true,
        ..with_messages(
            app,
            seq![note("Started a new conversation. Type /resume to browse previous ones."@)],
        )
    }
}

/// The conversations other than the active one.
pub open spec fn other_conversations(list: Seq<MetaView>, active: Seq<char>) -> Seq<MetaView>
    decreases list.len(),
{
    if list.len() == 0 {
        seq![]
    } else if list.last().id != active {
        other_conversations(list.drop_last(), active).push(list.last())
    } else {
        other_conversations(list.drop_last(), active)
    }
}

/// The messages of a conversation that is taken up again.
pub open spec fn resumed_messages(history: Seq<PersistedView>, summary: Seq<char>) -> Seq<
    MessageView,
> {
    let back = restored(history);
    (if back.len() > 0 {
        back.push(note(seq![]))
    } else {
        back
    }).push(note("Resumed: "@ + summary))
}

/// The chat once the picked conversation was read, or could not be.
pub open spec fn resumed(
    app: AppView,
    meta: MetaView,
    history: Option<Seq<PersistedView>>,
) -> AppView {
    let moved = match history {
        Some(list) => AppView {
            active_id: meta.id,
            ..with_messages(app, resumed_messages(list, meta.summary))
        },
        None => app,
    };
    AppView { scroll_offset: 0, dirty: true, ..moved }
}

pub open spec fn opt_history(o: Option<Vec<PersistedMessage>>) -> Option<Seq<PersistedView>> {
    match o {
        Some(list) => Some(persisted_views(list@)),
        None => None,
    }
}

/// The conversation a picker row stands for.
pub open spec fn picked_meta(mode: ModeView, idx: usize) -> Option<MetaView> {
    match mode {
        ModeView::Chat => None,
        ModeView::ResumePicker { items, .. } => if idx < items.len() {
            Some(items[idx as int])
        } else {
            None
        },
    }
}

// ---------------------------------------------------------------------------
// Texts
// ---------------------------------------------------------------------------

pub open spec fn memory_text(dir: Seq<char>, entries: nat, cap: nat) -> Seq<char> {
    "SOUL    "@ + dir + "/SOUL.md\nSTYLE   "@ + dir + "/STYLE.md\nSKILL   "@ + dir
        + "/SKILL.md\nMEMORY  "@ + dir + "/MEMORY.md   ("@ + decimal(entries) + "/"@ + decimal(cap)
        + " entries)"@
}

/// The questions asked so far.
pub open spec fn questions(list: Seq<MessageView>) -> nat
    decreases list.len(),
{
    if list.len() == 0 {
        0
    } else {
        let m = list.last();
        questions(list.drop_last()) + (if !m.is_context && !m.is_tool() && m.role == Role::User {
            1nat
        } else {
            0nat
        })
    }
}

pub open spec fn status_text(
    provider: Seq<char>,
    model: Seq<char>,
    round: nat,
    round_cap: nat,
    entries: nat,
    entry_cap: nat,
    cwd: Seq<char>,
) -> Seq<char> {
    "Provider   "@ + provider + "\nModel      "@ + model + "\nRound      "@ + decimal(round)
        + " / "@ + decimal(round_cap) + "\nMemory     "@ + decimal(entries) + "/"@ + decimal(
        entry_cap,
    ) + " entries\nCwd        "@ + cwd
}

/// What `/config` shows of the assistant's settings.
#[derive(Debug)]
pub struct AssistantSettings {
    pub provider: String,
    pub api_mode: String,
    pub fast_model: Option<String>,
    pub chat_model: String,
    pub chat_model_choices: Vec<String>,
    pub base_url: String,
    pub chat_tools_enabled: bool,
    pub native_web_search: bool,
    pub web_search_provider: Option<String>,
}

pub open spec fn or_text(o: Option<String>, other: Seq<char>) -> Seq<char> {
    match o {
        Some(s) => s@,
        None => other,
    }
}

pub open spec fn config_text(cfg: AssistantSettings) -> Seq<char> {
    "provider          "@ + cfg.provider@ + "\napi_mode          "@ + cfg.api_mode@
        + "\nsimple_model      "@ + or_text(cfg.fast_model, cfg.chat_model@)
        + "\ndeep_model        "@ + cfg.chat_model@ + "\nchat_model_choices "@ + (if
    cfg.chat_model_choices@.len() == 0 {
        "(dynamic)"@
    } else {
        joined(views(cfg.chat_model_choices@), ", "@)
    }) + "\nbase_url          "@ + cfg.base_url@ + "\nchat_tools_enabled "@ + (if cfg.chat_tools_enabled {
        "true"@
    } else {
        "false"@
    }) + "\nweb_search        "@ + (if cfg.native_web_search {
        "native"@
    } else {
        or_text(cfg.web_search_provider, "disabled"@)
    })
}

/// What came of asking for a suggestion.
#[derive(Debug)]
pub enum SuggestReply {
    Pending,
    Suggestion(String),
    Failed,
}

/// What the chat says about a suggestion.
pub open spec fn suggestion_text(reply: SuggestReply) -> Seq<char> {
    match reply {
        SuggestReply::Suggestion(s) => if trimmed(s@).len() > 0 {
            "Suggested next message: "@ + s@
        } else {
            "No clear next step to suggest."@
        },
        _ => "Could not generate a suggestion right now."@,
    }
}

fn or_string(o: &Option<String>, other: &str) -> (r: String)
    ensures
        r@ == or_text(*o, other@),
{
    match o {
        Some(s) => s.clone(),
        None => other.to_owned(),
    }
}

/// What `/config` says.
pub fn describe_settings(cfg: &AssistantSettings) -> (r: String)
    ensures
        r@ == config_text(*cfg),
{
    let simple = or_string(&cfg.fast_model, cfg.chat_model.as_str());
    let choices = if cfg.chat_model_choices.len() == 0 {
        "(dynamic)".to_owned()
    } else {
        join(&cfg.chat_model_choices, ", ")
    };
    let search = if cfg.native_web_search {
        "native".to_owned()
    } else {
        or_string(&cfg.web_search_provider, "disabled")
    };
    let mut out = concat2("provider          ", cfg.provider.as_str());
    out.append("\napi_mode          ");
    out.append(cfg.api_mode.as_str());
    out.append("\nsimple_model      ");
    out.append(simple.as_str());
    out.append("\ndeep_model        ");
    out.append(cfg.chat_model.as_str());
    out.append("\nchat_model_choices ");
    out.append(choices.as_str());
    out.append("\nbase_url          ");
    out.append(cfg.base_url.as_str());
    out.append("\nchat_tools_enabled ");
    if cfg.chat_tools_enabled {
        out.append("true");
    } else {
        out.append("false");
    }
    out.append("\nweb_search        ");
    out.append(search.as_str());
    out
}

fn describe_memory(dir: &str, entries: usize, cap: usize) -> (r: String)
    ensures
        r@ == memory_text(dir@, entries as nat, cap as nat),
{
    let mut out = concat2("SOUL    ", dir);
    out.append("/SOUL.md\nSTYLE   ");
    out.append(dir);
    out.append("/STYLE.md\nSKILL   ");
    out.append(dir);
    out.append("/SKILL.md\nMEMORY  ");
    out.append(dir);
    out.append("/MEMORY.md   (");
    out.append(decimal_of(entries as u128).as_str());
    out.append("/");
    out.append(decimal_of(cap as u128).as_str());
    out.append(" entries)");
    out
}

fn count_questions(messages: &Vec<Message>) -> (r: usize)
    ensures
        r == questions(conversation(messages@)),
{
    let ghost all = conversation(messages@);
    let mut n: usize = 0;
    let mut i: usize = 0;
    assert(all.take(0) =~= seq![]);
    while i < messages.len()
        invariant
            n <= i <= messages.len(),
            all == conversation(messages@),
            n == questions(all.take(i as int)),
        decreases messages.len() - i,
    {
        assert(all.take(i + 1).drop_last() =~= all.take(i as int));
        assert(all.take(i + 1).last() == messages@[i as int]@);
        let m = &messages[i];
        if !m.is_context && !m.is_tool() && m.role == Role::User {
            n += 1;
        }
        i += 1;
    }
    assert(all.take(i as int) =~= all);
    n
}

/// Label printed at the top of a user-authored message.
///
/// The overlay prefers the shorter "You" / "你" because horizontal space is
/// tight.
pub fn header_user(t: &Translations) -> (r: String)
    ensures
        r@ == translated(t.entries@, "ai.header.user"@),
{
    t.lookup("ai.header.user")
}

/// Label printed at the top of an assistant-authored message.
pub fn header_assistant(t: &Translations) -> (r: String)
    ensures
        r@ == translated(t.entries@, "ai.header.assistant"@),
{
    t.lookup("ai.header.assistant")
}

/// Title shown by the system notification when an approval is required
/// and the Kaku window is unfocused.
pub fn approval_notification_title(t: &Translations) -> (r: String)
    ensures
        r@ == translated(t.entries@, "ai.approval.title"@),
{
    t.lookup("ai.approval.title")
}

/// Title shown by the system notification when a chat task finishes
/// while the Kaku window is unfocused.
pub fn task_complete_notification_title(t: &Translations) -> (r: String)
    ensures
        r@ == translated(t.entries@, "ai.task_complete.title"@),
{
    t.lookup("ai.task_complete.title")
}

/// Body shown by the task-complete system notification.
pub fn task_complete_notification_body(t: &Translations) -> (r: String)
    ensures
        r@ == translated(t.entries@, "ai.task_complete.body"@),
{
    t.lookup("ai.task_complete.body")
}

// ---------------------------------------------------------------------------
// The chat
// ---------------------------------------------------------------------------

pub open spec fn spinner_text(frame: usize) -> Seq<char> {
    let at = frame % SPINNER_FRAME_COUNT;
    if at == 0 {
        "✦"@
    } else if at == 1 {
        "✶"@
    } else if at == 2 {
        "✸"@
    } else {
        "✷"@
    }
}

pub open spec fn less(a: usize, b: usize) -> usize {
    if a <= b {
        0
    } else {
        (a - b) as usize
    }
}

pub open spec fn rows_shown(app: AppView, layout_rows: usize) -> usize {
    if app.stream.pending_approval is Some || layout_rows < 1 {
        1
    } else if layout_rows > MAX_INPUT_VISIBLE_ROWS {
        MAX_INPUT_VISIBLE_ROWS
    } else {
        layout_rows
    }
}

/// Whether something on screen moves by itself.
pub open spec fn is_busy(app: AppView) -> bool {
    app.stream.is_streaming || app.stream.queue.len() > 0 || app.stream.pending_done
        || app.flash is Some || app.awaits_suggestion || app.stream.pending_approval is Some
        || app.models.fetch is Loading
}

/// Whether a loader is on screen.
pub open spec fn is_loading(app: AppView) -> bool {
    app.stream.is_streaming || app.stream.pending_approval is Some || app.models.fetch is Loading
}

/// How many frames the spinner goes on.
pub open spec fn frames_due(elapsed_ms: nat) -> nat {
    elapsed_ms / (SPINNER_INTERVAL_MS as nat)
}

pub open spec fn spun(app: AppView, elapsed_ms: nat) -> AppView {
    AppView {
        spinner_frame: ((app.spinner_frame + frames_due(elapsed_ms)) % (usize::MAX + 1)) as usize,
        ..app
    }
}

impl App {
    /// A session with the conversation that was active last. The greeting is for
    /// a user who has neither memories nor seen it before.
    pub fn new(
        models: Models,
        active_id: &str,
        history: &Vec<PersistedMessage>,
        memory_exists: bool,
        greeted_before: bool,
        cols: usize,
        rows: usize,
    ) -> (r: App)
        ensures
            r@ == (AppView {
                mode: ModeView::Chat,
                stream: quiet_stream(
                    first_messages(
                        persisted_views(history@),
                        !memory_exists && !greeted_before,
                    ),
                ),
                line: LineView { input: seq![], cursor: 0, undo: seq![], picker_index: 0 },
                scroll_offset: 0,
                models: models@,
                awaits_suggestion: false,
                flash: None,
                cols,
                rows,
                dirty: true,
                active_id: active_id@,
                spinner_frame: 0,
                onboarding_pending: !memory_exists && !greeted_before && history@.len() == 0,
                input_clicked: false,
                show_thinking: false,
            }),
            r.line.wf(),
    {
        let mut messages = restore_messages(history);
        let ghost back = conversation(messages@);
        assert(back.len() == history@.len());
        let onboarding_pending = !memory_exists && !greeted_before && messages.len() == 0;
        if onboarding_pending {
            push_message(
                &mut messages,
                Message::text(
                    Role::Assistant,
                    "Hi! I'm Kaku AI. Three quick things to help me help you:\n\n1. What should I call you?\n2. What reply style do you prefer? (e.g. concise, detailed, technical, casual)\n3. What do you typically work on? (languages, tools, current projects)\n\nAnswer in one message, or just ask your question. You can tell me later.",
                    true,
                    false,
                ),
            );
        }
        let stream = ChatStream {
            messages,
            queue: Vec::new(),
            receiving: false,
            is_streaming: false,
            pending_done: false,
            pending_err: None,
            pending_items: Vec::new(),
            pending_approval: None,
            transient: false,
            next_is_context: false,
        };
        assert(stream@.queue =~= seq![]);
        assert(stream@.pending_items =~= seq![]);
        let line = InputLine::new();
        assert(snapshot_views(line.undo@) =~= seq![]);
        App {
            mode: AppMode::Chat,
            stream,
            line,
            scroll_offset: 0,
            models,
            awaits_suggestion: false,
            flash: None,
            cols,
            rows,
            dirty: true,
            active_id: active_id.to_owned(),
            spinner_frame: 0,
            onboarding_pending,
            input_clicked: false,
            show_thinking: false,
        }
    }

    pub fn spinner_char(&self) -> (r: &'static str)
        ensures
            r@ == spinner_text(self.spinner_frame),
    {
        let at: usize = self.spinner_frame % SPINNER_FRAME_COUNT;
        if at == 0 {
            "✦"
        } else if at == 1 {
            "✶"
        } else if at == 2 {
            "✸"
        } else {
            "✷"
        }
    }

    /// Advance the spinner phase when at least one full frame interval has
    /// elapsed. The tick baseline is advanced by whole-frame multiples
    /// (not reset to now), so jitter in the event-loop poll timeout
    /// cannot accumulate into drift -- the next frame always lands on the
    /// correct frame boundary. Returns by how many milliseconds the baseline
    /// goes on, where the visible frame changed.
    pub fn try_advance_spinner(&mut self, elapsed_ms: u128) -> (r: Option<u64>)
        requires
            elapsed_ms <= u64::MAX,
        ensures
            final(self)@ == spun(old(self)@, elapsed_ms as nat),
            r is Some == (elapsed_ms >= SPINNER_INTERVAL_MS),
            r matches Some(ms) ==> ms == frames_due(elapsed_ms as nat) * SPINNER_INTERVAL_MS && ms
                <= elapsed_ms < ms + SPINNER_INTERVAL_MS,
            final(self).line == old(self).line,
    {
        if elapsed_ms < SPINNER_INTERVAL_MS {
            assert(frames_due(elapsed_ms as nat) == 0);
            return None;
        }
        let frames: u128 = elapsed_ms / SPINNER_INTERVAL_MS;
        assert(frames * 140 <= elapsed_ms < frames * 140 + 140);
        let step: usize = (frames % (usize::MAX as u128 + 1)) as usize;
        proof {
            lemma_add_mod_noop_right(
                self.spinner_frame as int,
                frames as int,
                usize::MAX as int + 1,
            );
            let sum = self.spinner_frame + step;
            if sum > usize::MAX {
                lemma_fundamental_div_mod_converse(
                    sum as int,
                    usize::MAX as int + 1,
                    1,
                    sum - (usize::MAX + 1),
                );
            } else {
                lemma_small_mod(sum as nat, (usize::MAX + 1) as nat);
            }
        }
        self.spinner_frame = self.spinner_frame.wrapping_add(step);
        assert(frames <= u64::MAX);
        Some(frames as u64 * 140)
    }

    pub fn current_model(&self) -> (r: String)
        ensures
            r@ == current_of(self@.models),
    {
        self.models.current_model()
    }

    pub fn content_width(&self) -> (r: usize)
        ensures
            r == less(self.cols, 4),
    {
        // 2 border + 2 padding per side
        self.cols.saturating_sub(4)
    }

    /// Width available inside the input box (between the left and right
    /// border columns). Input wraps at this width.
    pub fn input_wrap_width(&self) -> (r: usize)
        ensures
            r == less(self.cols, 2),
    {
        self.cols.saturating_sub(2)
    }

    pub fn current_input_prompt(&self) -> (r: String)
        ensures
            r@ == (if self@.stream.is_streaming {
                "  "@ + spinner_text(self.spinner_frame) + " "@
            } else {
                "  > "@
            }),
    {
        if self.stream.is_streaming {
            concat3("  ", self.spinner_char(), " ")
        } else {
            "  > ".to_owned()
        }
    }

    /// How many rows the input area occupies right now. Grows with wrapped
    /// input length up to a cap; the approval banner always takes one row.
    pub fn input_visible_rows(&self, layout_rows: usize) -> (r: usize)
        ensures
            r == rows_shown(self@, layout_rows),
            1 <= r <= MAX_INPUT_VISIBLE_ROWS,
    {
        if self.stream.pending_approval.is_some() || layout_rows < 1 {
            1
        } else if layout_rows > MAX_INPUT_VISIBLE_ROWS {
            MAX_INPUT_VISIBLE_ROWS
        } else {
            layout_rows
        }
    }

    /// Total visible rows for the message area. Shrinks when the input
    /// box grows so the chrome (top border + separator + input + bottom
    /// border) always stays inside the overlay.
    pub fn msg_area_height(&self, layout_rows: usize) -> (r: usize)
        ensures
            r == less(self.rows, (3 + rows_shown(self@, layout_rows)) as usize),
            self.rows >= 8 ==> r + 3 + rows_shown(self@, layout_rows) == self.rows,
    {
        self.rows.saturating_sub(3 + self.input_visible_rows(layout_rows))
    }

    /// Push a system info message (shown in UI, not persisted).
    pub fn push_info(&mut self, text: &str)
        ensures
            final(self)@ == informed(old(self)@, text@),
            final(self).line == old(self).line,
    {
        push_message(&mut self.stream.messages, Message::text(Role::Assistant, text, true, true));
        self.dirty = true;
    }

    fn drop_oldest(&mut self)
        ensures
            final(self)@ == with_messages(old(self)@, with_room(old(self)@.stream.messages)),
            final(self).line == old(self).line,
    {
        let ghost all = conversation(self.stream.messages@);
        let n: usize = self.stream.messages.len();
        if n >= MAX_DISPLAY_MESSAGES {
            let rest = self.stream.messages.split_off(n - MAX_DISPLAY_MESSAGES + 1);
            self.stream.messages = rest;
            assert(conversation(self.stream.messages@) =~= with_room(all));
        }
    }

    /// Takes the current input: a slash command to run, or a question, which is
    /// put in place and comes back as a request to send. `skill` is the skill
    /// that the line invokes.
    pub fn submit(&mut self, skill: Option<&SkillRequest>, around: &Surroundings) -> (r: Submitted)
        requires
            old(self).line.wf(),
            around.prompt.max_history_pairs <= usize::MAX / 2,
        ensures
            (final(self)@, r@) == submitted(old(self)@, opt_request(skill), *around),
            final(self).line.wf(),
    {
        let raw = trim(self.line.input.as_str());
        if raw.as_str().is_empty() {
            return Submitted::Ignored;
        }
        // Mark onboarding complete on the user's first submit (whatever they typed).
        self.onboarding_pending = false;
        let command = parse_command(raw.as_str());
        if let ChatCommand::Talk = command {
            self.talk(raw.as_str(), skill, around)
        } else {
            self.line.clear();
            assert(self@.line.input =~= seq![]);
            Submitted::Command(command)
        }
    }

    fn talk(&mut self, raw: &str, skill: Option<&SkillRequest>, around: &Surroundings) -> (r:
        Submitted)
        requires
            old(self).line.wf(),
            around.prompt.max_history_pairs <= usize::MAX / 2,
        ensures
            (final(self)@, r@) == talked(old(self)@, raw@, opt_request(skill), *around),
            final(self).line.wf(),
    {
        let ghost start = self@;
        let text = match skill {
            Some(request) => match &request.text {
                Ok(t) => t.clone(),
                Err(e) => {
                    self.push_info(e.as_str());
                    return Submitted::Refused;
                },
            },
            None => raw.to_owned(),
        };
        let (question, attachments) = match resolve_input_attachments(
            text.as_str(),
            &around.context,
            &around.facts,
        ) {
            Ok(both) => both,
            Err(e) => {
                self.push_info(e.as_str());
                return Submitted::Refused;
            },
        };
        let transient = self.stream.transient;
        self.line.clear();
        assert(self@.line.input =~= seq![]);
        self.line.picker_index = 0;
        self.scroll_offset = 0;
        // Trim old messages from the front so the display list stays bounded.
        self.drop_oldest();
        push_message(
            &mut self.stream.messages,
            Message::user_text(question.as_str(), attachments),
        );
        self.stream.start_stream(false);
        self.input_clicked = false;
        self.dirty = true;
        assert(self@ == question_placed(
            start,
            user_message(question@, attachment_views(attachments@)),
        ));
        let model = self.models.current_model();
        let active = match skill {
            Some(request) => Some(&request.skill),
            None => None,
        };
        let messages = build_api_messages(
            &around.prompt,
            active,
            &around.context,
            &self.stream.messages,
        );
        let tools = tools_of_request(around, transient);
        Submitted::Asked(ChatRequest { messages, model, tools })
    }

    /// Asks a side question, unless an answer is still coming in.
    pub fn submit_btw(&mut self, question: &str, around: &Surroundings) -> (r: Option<ChatRequest>)
        requires
            around.prompt.max_history_pairs <= usize::MAX / 2,
        ensures
            old(self)@.stream.is_streaming ==> r is None && final(self)@ == informed(
                old(self)@,
                "Wait for the current response to finish."@,
            ),
            !old(self)@.stream.is_streaming ==> final(self)@ == side_asked(old(self)@, question@)
                && (r matches Some(request) && request@ == side_request(
                old(self)@,
                question@,
                *around,
            )),
            final(self).line == old(self).line,
    {
        if self.stream.is_streaming {
            self.push_info("Wait for the current response to finish.");
            return None;
        }
        let line = concat2("/btw ", question);
        push_message(
            &mut self.stream.messages,
            Message::text(Role::User, line.as_str(), true, true),
        );
        self.dirty = true;
        let mut messages = build_api_messages(
            &around.prompt,
            None,
            &around.context,
            &self.stream.messages,
        );
        add_message(
            &mut messages,
            ApiMessage::User(
                concat2("[/btw side-question: answer inline, do not store in history]: ", question),
            ),
        );
        self.stream.start_stream(true);
        self.input_clicked = false;
        let model = self.models.current_model();
        let tools: Vec<JsonValue> = Vec::new();
        assert(json_views(tools@) =~= seq![]);
        Some(ChatRequest { messages, model, tools })
    }

    /// Takes the events that came in.
    pub fn drain_tokens(&mut self, events: Vec<StreamMsg>, closed: bool) -> (r: DrainOutcome)
        ensures
            ({
                let (after, changed, taken) = drained(
                    old(self)@.stream,
                    event_views(events@),
                    closed,
                );
                &&& final(self)@ == (AppView {
                    stream: after,
                    dirty: old(self)@.dirty || changed,
                    ..old(self)@
                })
                &&& r.changed == changed
                &&& r.consumed == taken
            }),
            ({
                let end = ending(old(self)@.stream, event_views(events@), closed);
                &&& r.notify_complete == (end == Some((false, false)))
                &&& r.save_history == (end matches Some(e) && !e.1)
                &&& r.extract_memories == (end == Some((false, false)))
            }),
            opt_view(r.approval_notice) == approval_note(
                old(self)@.stream,
                event_views(events@),
                closed,
            ),
            r.remaining@ == events@.skip(r.consumed as int),
            r.consumed <= events@.len(),
            forall|i: int| 0 <= i < r.consumed ==> splits_whole(#[trigger] event_views(events@)[i]),
            final(self).line == old(self).line,
    {
        let outcome = self.stream.drain_tokens(events, closed);
        if outcome.changed {
            self.dirty = true;
        }
        outcome
    }

    fn stop_stream(&mut self)
        ensures
            final(self)@ == settled(old(self)@),
            final(self).line == old(self).line,
            final(self).stream.messages == old(self).stream.messages,
    {
        if self.stream.is_streaming {
            self.stream.cancel_stream();
        }
    }

    /// Stops the stream, and hands out the conversation that is left behind for
    /// a fresh one. Where there is none, nothing more happens.
    pub fn leave_conversation(&mut self) -> (r: Option<Outgoing>)
        requires
            old(self).stream.messages.len() <= u32::MAX,
        ensures
            opt_outgoing(r) == outgoing_of(old(self)@),
            final(self)@ == (if r is Some {
                settled(old(self)@)
            } else {
                informed(settled(old(self)@), "Nothing to archive yet. Start chatting first."@)
            }),
            final(self).line == old(self).line,
    {
        self.stop_stream();
        let messages = collect_persisted_messages(&self.stream.messages);
        assert(persisted_views(messages@).len() == messages@.len());
        if messages.len() == 0 {
            self.push_info("Nothing to archive yet. Start chatting first.");
            return None;
        }
        Some(Outgoing { id: self.active_id.clone(), messages })
    }

    /// Begins a fresh conversation, under its id where it could be made.
    pub fn begin_conversation(&mut self, id: Option<&str>)
        ensures
            final(self)@ == begun(old(self)@, opt_str(id)),
            final(self).line == old(self).line,
    {
        if let Some(new_id) = id {
            self.active_id = new_id.to_owned();
        }
        let mut messages: Vec<Message> = Vec::new();
        assert(conversation(messages@) =~= seq![]);
        push_message(
            &mut messages,
            Message::text(
                Role::Assistant,
                "Started a new conversation. Type /resume to browse previous ones.",
                true,
                true,
            ),
        );
        assert(conversation(messages@) =~= seq![
            note("Started a new conversation. Type /resume to browse previous ones."@),
        ]);
        self.stream.messages = messages;
        self.scroll_offset = 0;
        self.dirty = true;
    }

    /// Clear display messages from the current conversation without persisting or archiving.
    pub fn clear_conversation(&mut self)
        ensures
            final(self)@ == (AppView {
                scroll_offset: 0,
                dirty: true,
                ..with_messages(settled(old(self)@), seq![])
            }),
            final(self).line == old(self).line,
    {
        self.stop_stream();
        self.stream.messages = Vec::new();
        assert(conversation(self.stream.messages@) =~= seq![]);
        self.scroll_offset = 0;
        self.dirty = true;
    }

    /// The text for the clipboard, where there is anything to export.
    pub fn cmd_export(&mut self) -> (r: Option<String>)
        requires
            old(self).stream.messages.len() <= u32::MAX,
        ensures
            ({
                let list = persisted(old(self)@.stream.messages);
                &&& opt_view(r) == (if list.len() == 0 {
                    None
                } else {
                    Some(without_ends(exported(list), divider()))
                })
                &&& final(self)@ == informed(
                    old(self)@,
                    if list.len() == 0 {
                        "Nothing to export yet."@
                    } else {
                        "Copied "@ + decimal(list.len()) + " messages to clipboard."@
                    },
                )
            }),
            final(self).line == old(self).line,
    {
        let list = collect_persisted_messages(&self.stream.messages);
        assert(persisted_views(list@).len() == list@.len());
        if list.len() == 0 {
            self.push_info("Nothing to export yet.");
            return None;
        }
        let text = export_text(&list);
        let count = decimal_of(list.len() as u128);
        let info = concat3("Copied ", count.as_str(), " messages to clipboard.");
        self.push_info(info.as_str());
        Some(text)
    }

    /// Shows where the memory files are, and how full the memory is.
    pub fn cmd_memory(&mut self, soul_dir: &str, memory: &str, max_entries: usize)
        ensures
            final(self)@ == informed(
                old(self)@,
                memory_text(soul_dir@, memory_entries(memory@), max_entries as nat),
            ),
            final(self).line == old(self).line,
    {
        let text = describe_memory(soul_dir, count_memory_entries(memory), max_entries);
        self.push_info(text.as_str());
    }

    pub fn cmd_status(
        &mut self,
        provider: &str,
        memory: &str,
        cwd: &str,
        max_rounds: usize,
        max_entries: usize,
    )
        ensures
            final(self)@ == informed(
                old(self)@,
                status_text(
                    provider@,
                    current_of(old(self)@.models),
                    questions(old(self)@.stream.messages),
                    max_rounds as nat,
                    memory_entries(memory@),
                    max_entries as nat,
                    cwd@,
                ),
            ),
            final(self).line == old(self).line,
    {
        let model = self.models.current_model();
        let round: usize = count_questions(&self.stream.messages);
        let entries: usize = count_memory_entries(memory);
        let mut out = concat2("Provider   ", provider);
        out.append("\nModel      ");
        out.append(model.as_str());
        out.append("\nRound      ");
        out.append(decimal_of(round as u128).as_str());
        out.append(" / ");
        out.append(decimal_of(max_rounds as u128).as_str());
        out.append("\nMemory     ");
        out.append(decimal_of(entries as u128).as_str());
        out.append("/");
        out.append(decimal_of(max_entries as u128).as_str());
        out.append(" entries\nCwd        ");
        out.append(cwd);
        self.push_info(out.as_str());
    }

    /// Predict the next message the user might type, based on the recent
    /// transcript: hands out the transcript, where it is long enough. A second
    /// request before the first lands drops the prior one.
    pub fn cmd_suggest(&mut self) -> (r: Option<Vec<PersistedMessage>>)
        requires
            old(self).stream.messages.len() <= u32::MAX,
        ensures
            ({
                let list = persisted(old(self)@.stream.messages);
                if list.len() < 2 {
                    r is None && final(self)@ == informed(
                        old(self)@,
                        "Not enough conversation yet to suggest a follow-up."@,
                    )
                } else {
                    opt_history(r) == Some(list) && final(self)@ == (AppView {
                        awaits_suggestion: true,
                        ..old(self)@
                    })
                }
            }),
            final(self).line == old(self).line,
    {
        let list = collect_persisted_messages(&self.stream.messages);
        assert(persisted_views(list@).len() == list@.len());
        if list.len() < 2 {
            self.push_info("Not enough conversation yet to suggest a follow-up.");
            return None;
        }
        self.awaits_suggestion = true;
        Some(list)
    }

    /// Takes what came of asking for a suggestion. Returns true if a redraw is
    /// needed.
    pub fn drain_suggest(&mut self, reply: SuggestReply) -> (r: bool)
        ensures
            r == (old(self)@.awaits_suggestion && !(reply is Pending)),
            final(self)@ == (if r {
                AppView {
                    awaits_suggestion: false,
                    ..informed(old(self)@, suggestion_text(reply))
                }
            } else {
                old(self)@
            }),
            final(self).line == old(self).line,
    {
        if !self.awaits_suggestion {
            return false;
        }
        let text = match reply {
            SuggestReply::Pending => return false,
            SuggestReply::Suggestion(s) => if !trim(s.as_str()).as_str().is_empty() {
                concat2("Suggested next message: ", s.as_str())
            } else {
                "No clear next step to suggest.".to_owned()
            },
            SuggestReply::Failed => "Could not generate a suggestion right now.".to_owned(),
        };
        self.awaits_suggestion = false;
        self.push_info(text.as_str());
        true
    }

    pub fn cmd_config(&mut self, cfg: &AssistantSettings)
        ensures
            final(self)@ == informed(old(self)@, config_text(*cfg)),
            final(self).line == old(self).line,
    {
        let text = describe_settings(cfg);
        self.push_info(text.as_str());
    }

    /// Takes what came of asking the server for its models. Returns true if a
    /// redraw is needed.
    pub fn drain_model_fetch(&mut self, reply: FetchReply, last: Option<&str>) -> (r: bool)
        ensures
            final(self)@ == (AppView {
                models: fetched(old(self)@.models, reply, opt_str(last)),
                ..old(self)@
            }),
            r == (old(self)@.models.awaited && !(reply is Pending)),
            final(self).line == old(self).line,
    {
        self.models.drain_model_fetch(reply, last)
    }

    /// Switches the model or lists the models. The result is a model whose
    /// choice is to be remembered.
    pub fn cmd_model(&mut self, arg: Option<&str>) -> (r: Option<String>)
        ensures
            ({
                let before = old(self)@.models;
                let known = opt_str(arg) matches Some(name) && place_of(before.available, name)
                    < before.available.len();
                let after = if known {
                    ModelsView {
                        index: place_of(before.available, opt_str(arg)->0) as usize,
                        ..before
                    }
                } else {
                    before
                };
                &&& final(self)@ == informed(
                    AppView { models: after, ..old(self)@ },
                    model_reply(before, opt_str(arg)),
                )
                &&& opt_view(r) == (if known {
                    Some(current_of(after))
                } else {
                    None
                })
            }),
            final(self).line == old(self).line,
    {
        let (text, chosen) = self.models.cmd_model(arg);
        let model = if chosen {
            Some(self.models.current_model())
        } else {
            None
        };
        self.push_info(text.as_str());
        model
    }

    /// Enter picker mode with all conversations except the active one.
    pub fn enter_resume_picker(&mut self, index: &Vec<ConversationMeta>)
        ensures
            ({
                let items = other_conversations(meta_views(index@), old(self)@.active_id);
                final(self)@ == (if items.len() == 0 {
                    informed(
                        old(self)@,
                        "No other saved conversations. Use /new first to archive the current one."@,
                    )
                } else {
                    AppView { mode: ModeView::ResumePicker { items, cursor: 0 }, ..old(self)@ }
                })
            }),
            final(self).line == old(self).line,
    {
        let ghost all = meta_views(index@);
        let ghost app = self@;
        let mut items: Vec<ConversationMeta> = Vec::new();
        let mut i: usize = 0;
        assert(all.take(0) =~= seq![]);
        assert(meta_views(items@) =~= seq![]);
        while i < index.len()
            invariant
                i <= index.len(),
                all == meta_views(index@),
                meta_views(items@) == other_conversations(all.take(i as int), self.active_id@),
            decreases index.len() - i,
        {
            assert(all.take(i + 1).drop_last() =~= all.take(i as int));
            assert(all.take(i + 1).last() == index@[i as int]@);
            if !same(index[i].id.as_str(), self.active_id.as_str()) {
                let ghost before = meta_views(items@);
                let meta = ConversationMeta {
                    id: index[i].id.clone(),
                    summary: index[i].summary.clone(),
                };
                items.push(meta);
                assert(meta_views(items@) =~= before.push(index@[i as int]@));
            }
            i += 1;
        }
        assert(all.take(i as int) =~= all);
        assert(meta_views(items@).len() == items@.len());
        if items.len() == 0 {
            self.push_info(
                "No other saved conversations. Use /new first to archive the current one.",
            );
            return;
        }
        self.mode = AppMode::ResumePicker { items, cursor: 0 };
    }

    /// Leaves the picker with the conversation at `idx`: hands it out, together
    /// with the conversation that is left behind.
    pub fn pick_conversation(
        &mut self,
        idx: usize,
    ) -> (r: Option<(ConversationMeta, Option<Outgoing>)>)
        requires
            old(self).line.wf(),
            old(self).stream.messages.len() <= u32::MAX,
        ensures
            ({
                let meta = picked_meta(old(self)@.mode, idx);
                let back = AppView { mode: ModeView::Chat, ..settled(old(self)@) };
                match meta {
                    None => r is None && final(self)@ == back,
                    Some(m) => final(self)@ == line_cleared(back) && (r matches Some(p) && p.0@ == m
                        && opt_outgoing(p.1) == outgoing_of(old(self)@)),
                }
            }),
            final(self).line.wf(),
    {
        self.stop_stream();
        let found = match &self.mode {
            AppMode::Chat => None,
            AppMode::ResumePicker { items, cursor } => {
                assert(meta_views(items@).len() == items@.len());
                if idx < items.len() {
                    assert(meta_views(items@)[idx as int] == items@[idx as int]@);
                    Some(
                        ConversationMeta {
                            id: items[idx].id.clone(),
                            summary: items[idx].summary.clone(),
                        },
                    )
                } else {
                    None
                }
            },
        };
        self.mode = AppMode::Chat;
        match found {
            None => None,
            Some(meta) => {
                self.line.clear();
                assert(self@.line.input =~= seq![]);
                let messages = collect_persisted_messages(&self.stream.messages);
                assert(persisted_views(messages@).len() == messages@.len());
                let outgoing = if messages.len() == 0 {
                    None
                } else {
                    Some(Outgoing { id: self.active_id.clone(), messages })
                };
                Some((meta, outgoing))
            },
        }
    }

    /// Takes up the picked conversation, where it could be read.
    pub fn resume_conversation(
        &mut self,
        meta: &ConversationMeta,
        history: &Option<Vec<PersistedMessage>>,
    )
        ensures
            final(self)@ == resumed(old(self)@, meta@, opt_history(*history)),
            final(self).line == old(self).line,
    {
        if let Some(list) = history {
            self.active_id = meta.id.clone();
            let mut messages = restore_messages(list);
            let ghost back = conversation(messages@);
            assert(back.len() == messages@.len());
            if messages.len() > 0 {
                proof {
                    reveal_strlit("");
                    assert(""@ =~= seq![]);
                }
                push_message(&mut messages, Message::text(Role::Assistant, "", true, true));
            }
            let line = concat2("Resumed: ", meta.summary.as_str());
            push_message(&mut messages, Message::text(Role::Assistant, line.as_str(), true, true));
            self.stream.messages = messages;
        }
        self.scroll_offset = 0;
        self.dirty = true;
    }

    /// Ends the chat: the growing message counts as finished, so that it is
    /// saved. Hands out what is saved.
    pub fn quit(&mut self) -> (r: Vec<PersistedMessage>)
        requires
            old(self).stream.messages.len() <= u32::MAX,
        ensures
            final(self)@ == closed_chat(old(self)@),
            persisted_views(r@) == persisted(closed_chat(old(self)@).stream.messages),
            final(self).line == old(self).line,
    {
        let ghost before = conversation(self.stream.messages@);
        assert(before.len() == self.stream.messages@.len());
        proof {
            closing_keeps_messages(before);
        }
        self.stream.close_open_message();
        assert(self@.stream.messages.len() == self.stream.messages@.len());
        collect_persisted_messages(&self.stream.messages)
    }

    /// How long to wait for input: short while something moves, so that the
    /// channels are looked at regularly.
    pub fn poll_timeout_ms(&self) -> (r: u64)
        ensures
            r == (if is_busy(self@) {
                BUSY_POLL_MS
            } else {
                IDLE_POLL_MS
            }),
    {
        let loading = match self.models.fetch {
            crate::chat_models::ModelFetch::Loading => true,
            _ => false,
        };
        assert(self@.stream.queue.len() == self.stream.queue@.len());
        if self.stream.is_streaming || self.stream.queue.len() > 0 || self.stream.pending_done
            || self.flash.is_some() || self.awaits_suggestion
            || self.stream.pending_approval.is_some() || loading {
            BUSY_POLL_MS
        } else {
            IDLE_POLL_MS
        }
    }

    /// No input came in time: the spinner goes on wherever a loader is on
    /// screen. Returns whether to redraw, and by how many milliseconds the
    /// spinner's baseline goes on.
    pub fn on_timeout(&mut self, elapsed_ms: u128) -> (r: (bool, Option<u64>))
        requires
            elapsed_ms <= u64::MAX,
        ensures
            final(self)@ == (if is_loading(old(self)@) {
                spun(old(self)@, elapsed_ms as nat)
            } else {
                old(self)@
            }),
            r.1 is Some == (is_loading(old(self)@) && elapsed_ms >= SPINNER_INTERVAL_MS),
            r.1 matches Some(ms) ==> ms == frames_due(elapsed_ms as nat) * SPINNER_INTERVAL_MS,
            r.0 == (old(self)@.stream.is_streaming || old(self)@.stream.queue.len() > 0 || old(
                self,
            )@.stream.pending_done || r.1 is Some),
            final(self).line == old(self).line,
    {
        let fetching = match self.models.fetch {
            crate::chat_models::ModelFetch::Loading => true,
            _ => false,
        };
        let loading = self.stream.is_streaming || self.stream.pending_approval.is_some()
            || fetching;
        let advance = if loading {
            self.try_advance_spinner(elapsed_ms)
        } else {
            None
        };
        assert(self@.stream.queue.len() == self.stream.queue@.len());
        let redraw = self.stream.is_streaming || self.stream.queue.len() > 0
            || self.stream.pending_done || advance.is_some();
        (redraw, advance)
    }

    /// Expire the status flash. Returns whether to redraw.
    pub fn expire_flash(&mut self, shown_for_ms: u64) -> (r: bool)
        ensures
            r == (old(self)@.flash is Some && shown_for_ms >= FLASH_MS),
            final(self)@ == (if r {
                AppView { flash: None, ..old(self)@ }
            } else {
                old(self)@
            }),
            final(self).line == old(self).line,
    {
        if self.flash.is_some() && shown_for_ms >= FLASH_MS {
            self.flash = None;
            true
        } else {
            false
        }
    }

    pub fn resize(&mut self, cols: usize, rows: usize)
        ensures
            final(self)@ == (AppView { cols, rows, dirty: true, ..old(self)@ }),
            final(self).line == old(self).line,
    {
        self.cols = cols;
        self.rows = rows;
        self.dirty = true;
    }
}

/// What comes in from the terminal.
#[derive(Debug)]
pub enum OverlayEvent {
    /// A key that was handled; some end the chat.
    Key { quits: bool },
    /// Text that was pasted, or composed by an input method.
    Paste(String),
    Mouse,
    Resized { cols: usize, rows: usize },
    Other,
    /// Nothing came in time; the spinner stood for so long.
    Timeout { elapsed_ms: u128 },
}

/// What is left to do about it.
#[derive(Debug)]
pub struct OverlayOutcome {
    pub redraw: bool,
    /// The chat ends, and this is saved.
    pub saved: Option<Vec<PersistedMessage>>,
    /// By how many milliseconds the spinner's baseline goes on.
    pub advance_ms: Option<u64>,
}

/// The line with a text pasted into it at the cursor.
pub open spec fn line_pasted(line: LineView, text: Seq<char>) -> LineView {
    let at = line.cursor as int;
    if pasted(text).len() == 0 {
        line
    } else {
        LineView {
            input: spliced(line.input, at, at, pasted(text)),
            cursor: (at + pasted(text).len()) as usize,
            undo: pushed(line.undo, line.input, line.cursor),
            picker_index: 0,
        }
    }
}

/// The chat as it is left: the growing message counts as finished.
pub open spec fn closed_chat(app: AppView) -> AppView {
    if app.stream.is_streaming || app.stream.pending_done {
        with_messages(app, last_closed(app.stream.messages))
    } else {
        app
    }
}

/// The chat after an event.
pub open spec fn after_event(app: AppView, event: OverlayEvent) -> AppView {
    match event {
        OverlayEvent::Key { quits } => if quits {
            closed_chat(app)
        } else {
            app
        },
        OverlayEvent::Paste(text) => AppView {
            line: line_pasted(app.line, text@),
            dirty: app.dirty || pasted(text@).len() > 0,
            ..app
        },
        OverlayEvent::Resized { cols, rows } => AppView { cols, rows, dirty: true, ..app },
        OverlayEvent::Timeout { elapsed_ms } => if is_loading(app) {
            spun(app, elapsed_ms as nat)
        } else {
            app
        },
        _ => app,
    }
}

/// Whether the chat is drawn again after an event.
pub open spec fn redraws(app: AppView, event: OverlayEvent) -> bool {
    match event {
        OverlayEvent::Key { quits } => !quits,
        OverlayEvent::Paste(text) => pasted(text@).len() > 0,
        OverlayEvent::Mouse | OverlayEvent::Resized { .. } => true,
        OverlayEvent::Other => false,
        OverlayEvent::Timeout { elapsed_ms } => {
            app.stream.is_streaming || app.stream.queue.len() > 0 || app.stream.pending_done || (
            is_loading(app) && elapsed_ms >= SPINNER_INTERVAL_MS)
        },
    }
}

impl App {
    /// Takes what comes in from the terminal.
    pub fn handle_event(&mut self, event: OverlayEvent) -> (r: OverlayOutcome)
        requires
            old(self).line.wf(),
            old(self).stream.messages.len() <= u32::MAX,
            event matches OverlayEvent::Timeout { elapsed_ms } ==> elapsed_ms <= u64::MAX,
        ensures
            final(self).line.wf(),
            final(self)@ == after_event(old(self)@, event),
            r.redraw == redraws(old(self)@, event),
            opt_history(r.saved) == (if event matches OverlayEvent::Key { quits } && quits {
                Some(persisted(closed_chat(old(self)@).stream.messages))
            } else {
                None
            }),
            r.advance_ms is Some == (event matches OverlayEvent::Timeout { elapsed_ms }
                && is_loading(old(self)@) && elapsed_ms >= SPINNER_INTERVAL_MS),
            r.advance_ms matches Some(ms) ==> (event matches OverlayEvent::Timeout { elapsed_ms }
                && ms == frames_due(elapsed_ms as nat) * SPINNER_INTERVAL_MS),
    {
        match event {
            OverlayEvent::Key { quits } => {
                if quits {
                    let saved = self.quit();
                    return OverlayOutcome { redraw: false, saved: Some(saved), advance_ms: None };
                }
                OverlayOutcome { redraw: true, saved: None, advance_ms: None }
            },
            OverlayEvent::Paste(text) => {
                let changed = self.line.paste(text.as_str());
                if changed {
                    self.dirty = true;
                }
                OverlayOutcome { redraw: changed, saved: None, advance_ms: None }
            },
            OverlayEvent::Mouse => OverlayOutcome { redraw: true, saved: None, advance_ms: None },
            OverlayEvent::Resized { cols, rows } => {
                self.resize(cols, rows);
                OverlayOutcome { redraw: true, saved: None, advance_ms: None }
            },
            OverlayEvent::Other => OverlayOutcome { redraw: false, saved: None, advance_ms: None },
            OverlayEvent::Timeout { elapsed_ms } => {
                let (redraw, advance_ms) = self.on_timeout(elapsed_ms);
                OverlayOutcome { redraw, saved: None, advance_ms }
            },
        }
    }

    /// Takes back the last destructive edit. Returns whether there was one.
    pub fn undo_input(&mut self) -> (r: bool)
        requires
            old(self).line.wf(),
        ensures
            final(self).line.wf(),
            r == (old(self)@.line.undo.len() > 0),
            final(self)@ == (if r {
                AppView {
                    line: LineView {
                        input: old(self)@.line.undo.last().0,
                        cursor: old(self)@.line.undo.last().1,
                        undo: old(self)@.line.undo.drop_last(),
                        picker_index: 0,
                    },
                    dirty: true,
                    ..old(self)@
                }
            } else {
                old(self)@
            }),
    {
        assert(snapshot_views(self.line.undo@).len() == self.line.undo@.len());
        let changed = self.line.undo_input();
        if changed {
            self.dirty = true;
        }
        changed
    }
}

/// Takes the latest of the palettes that came in, if any did: the display is then
/// out of date. Returns whether to redraw.
pub fn drain_palette_updates<P>(
    updates: Vec<P>,
    colors: &mut P,
    display_dirty: &mut bool,
) -> (r: bool)
    ensures
        r == (updates@.len() > 0),
        r ==> *final(colors) == updates@.last() && *final(display_dirty),
        !r ==> *final(colors) == *old(colors) && *final(display_dirty) == *old(display_dirty),
{
    let mut rest = updates;
    if rest.len() == 0 {
        return false;
    }
    match rest.pop() {
        Some(latest) => {
            *colors = latest;
            *display_dirty = true;
            true
        },
        None => false,
    }
}

/// After a question is asked, at most the capped number of messages is on
/// display, and the question is the last of them.
pub proof fn display_list_is_bounded(
    app: AppView,
    skill: Option<SkillRequest>,
    around: Surroundings,
)
    requires
        submitted(app, skill, around).1 is Asked,
    ensures
        ({
            let after = submitted(app, skill, around).0;
            &&& 0 < after.stream.messages.len() <= MAX_DISPLAY_MESSAGES
            &&& after.stream.messages.last().role == Role::User
            &&& after.stream.is_streaming
            &&& after.line.input.len() == 0
        }),
{
}

/// A line that is refused stays in the input, and nothing is sent for it.
pub proof fn refused_lines_stay(app: AppView, skill: Option<SkillRequest>, around: Surroundings)
    requires
        submitted(app, skill, around).1 is Refused,
    ensures
        submitted(app, skill, around).0.line == app.line,
        submitted(app, skill, around).0.stream.is_streaming == app.stream.is_streaming,
        persisted(submitted(app, skill, around).0.stream.messages) == persisted(
            app.stream.messages,
        ),
{
    let raw = trimmed(app.line.input);
    let after = submitted(app, skill, around).0.stream.messages;
    assert(after.drop_last() =~= app.stream.messages);
    assert(persisted(after) =~= persisted(app.stream.messages));
}

/// A side question leaves what is saved, and what later requests hold, as they
/// were.
pub proof fn side_questions_leave_no_trace(
    app: AppView,
    question: Seq<char>,
    around: Surroundings,
    skill: Option<Skill>,
)
    ensures
        ({
            let after = side_asked(app, question);
            &&& persisted(after.stream.messages) == persisted(app.stream.messages)
            &&& request_messages(around.prompt, skill, around.context, after.stream.messages)
                == request_messages(around.prompt, skill, around.context, app.stream.messages)
            &&& after.stream.next_is_context && after.stream.transient
        }),
{
    crate::chat_history::requests_ignore_context_messages(
        around.prompt,
        skill,
        around.context,
        app.stream.messages,
        text_message(Role::User, "/btw "@ + question, true, true),
    );
}

/// No tools are offered where they would act on the wrong machine, nor for a
/// side question.
pub proof fn remote_panes_get_no_tools(around: Surroundings, transient: bool)
    requires
        around.context.remote_host is Some || transient || !around.tools_enabled,
    ensures
        request_tools(around, transient).len() == 0,
{
}

} // verus!
