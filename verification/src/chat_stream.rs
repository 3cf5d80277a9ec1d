//! The conversation while an answer streams in: messages, events, and the
//! typewriter queue.
use crate::chat_prompt::{AttachmentView, MessageAttachment, attachment_views};
use crate::json::{JsonValue, JsonView, json_views};
use crate::text::{concat2, concat3, opt_view, prefix_chars, take_chars, views};
use unicode_segmentation::UnicodeSegmentation;
use vstd::prelude::*;
use vstd::string::*;

verus! {

/// How many characters of an approval summary we send into a system
/// notification (the Cmd+L overlay is in the foreground; this banner is
/// surfaced only when the window is unfocused, so it should fit on one line).
pub const APPROVAL_NOTIFICATION_CHARS: usize = 100;

// ---------------------------------------------------------------------------
// Messages
// ---------------------------------------------------------------------------

#[derive(Clone, Copy, Debug, PartialEq, Eq, Structural)]
pub enum Role {
    User,
    Assistant,
}

#[derive(Debug)]
pub struct Message {
    pub role: Role,
    pub content: String,
    pub reasoning_content: String,
    pub responses_items: Vec<JsonValue>,
    /// False while the assistant is still streaming.
    pub complete: bool,
    /// True for UI-only messages (e.g. welcome text) that are not sent to the API.
    pub is_context: bool,
    /// When Some, this message is a tool-call event line, not a text turn.
    pub tool_name: Option<String>,
    /// Short preview of the tool's arguments (first 40 chars).
    pub tool_args: Option<String>,
    /// True when the tool execution returned an error.
    pub tool_failed: bool,
    pub attachments: Vec<MessageAttachment>,
}

pub struct MessageView {
    pub role: Role,
    pub content: Seq<char>,
    pub reasoning_content: Seq<char>,
    pub responses_items: Seq<JsonView>,
    pub complete: bool,
    pub is_context: bool,
    pub tool_name: Option<Seq<char>>,
    pub tool_args: Option<Seq<char>>,
    pub tool_failed: bool,
    pub attachments: Seq<AttachmentView>,
}

impl View for Message {
    type V = MessageView;

    open spec fn view(&self) -> MessageView {
        MessageView {
            role: self.role,
            content: self.content@,
            reasoning_content: self.reasoning_content@,
            responses_items: json_views(self.responses_items@),
            complete: self.complete,
            is_context: self.is_context,
            tool_name: opt_view(self.tool_name),
            tool_args: opt_view(self.tool_args),
            tool_failed: self.tool_failed,
            attachments: attachment_views(self.attachments@),
        }
    }
}

pub open spec fn conversation(list: Seq<Message>) -> Seq<MessageView> {
    list.map_values(|m: Message| m@)
}

/// A text message.
pub open spec fn text_message(
    role: Role,
    content: Seq<char>,
    complete: bool,
    is_context: bool,
) -> MessageView {
    MessageView {
        role,
        content,
        reasoning_content: seq![],
        responses_items: seq![],
        complete,
        is_context,
        tool_name: None,
        tool_args: None,
        tool_failed: false,
        attachments: seq![],
    }
}

/// A message of the user.
pub open spec fn user_message(content: Seq<char>, attachments: Seq<AttachmentView>) -> MessageView {
    MessageView { attachments, ..text_message(Role::User, content, true, false) }
}

/// A tool call that has just started.
pub open spec fn tool_message(name: Seq<char>, args: Seq<char>) -> MessageView {
    MessageView {
        tool_name: Some(name),
        tool_args: Some(args),
        ..text_message(Role::Assistant, seq![], false, false)
    }
}

impl MessageView {
    pub open spec fn is_tool(self) -> bool {
        self.tool_name is Some
    }

    /// A text message that is still growing.
    pub open spec fn is_open_text(self) -> bool {
        !self.is_tool() && !self.complete
    }

    pub open spec fn is_open_tool(self) -> bool {
        self.is_tool() && !self.complete
    }

    /// An answer that is still growing and that will be kept.
    pub open spec fn is_open_answer(self) -> bool {
        self.role == Role::Assistant && !self.is_context && self.is_open_text()
    }
}

impl Message {
    pub fn text(role: Role, content: &str, complete: bool, is_context: bool) -> (r: Message)
        ensures
            r@ == text_message(role, content@, complete, is_context),
    {
        let r = Message {
            role,
            content: content.to_owned(),
            reasoning_content: String::new(),
            responses_items: Vec::new(),
            complete,
            is_context,
            tool_name: None,
            tool_args: None,
            tool_failed: false,
            attachments: Vec::new(),
        };
        assert(r@.reasoning_content =~= seq![]);
        assert(r@.responses_items =~= seq![]);
        assert(r@.attachments =~= seq![]);
        r
    }

    pub fn user_text(content: &str, attachments: Vec<MessageAttachment>) -> (r: Message)
        ensures
            r@ == user_message(content@, attachment_views(attachments@)),
    {
        let mut r = Message::text(Role::User, content, true, false);
        r.attachments = attachments;
        r
    }

    pub fn tool_event(name: &str, args_preview: &str) -> (r: Message)
        ensures
            r@ == tool_message(name@, args_preview@),
    {
        let mut r = Message::text(Role::Assistant, "", false, false);
        proof {
            reveal_strlit("");
            assert(""@ =~= seq![]);
        }
        r.tool_name = Some(name.to_owned());
        r.tool_args = Some(args_preview.to_owned());
        r
    }

    pub fn is_tool(&self) -> (r: bool)
        ensures
            r == self@.is_tool(),
    {
        self.tool_name.is_some()
    }
}

/// Appends a message.
pub fn push_message(list: &mut Vec<Message>, message: Message)
    ensures
        conversation(final(list)@) == conversation(old(list)@).push(message@),
{
    list.push(message);
    assert(conversation(list@) =~= conversation(old(list)@).push(message@));
}

/// The last message that is still growing, or -1.
pub open spec fn last_open_text(list: Seq<MessageView>) -> int
    decreases list.len(),
{
    if list.len() == 0 {
        -1
    } else if list.last().is_open_text() {
        list.len() - 1
    } else {
        last_open_text(list.drop_last())
    }
}

/// The last tool call that is still running, or -1.
pub open spec fn last_open_tool(list: Seq<MessageView>) -> int
    decreases list.len(),
{
    if list.len() == 0 {
        -1
    } else if list.last().is_open_tool() {
        list.len() - 1
    } else {
        last_open_tool(list.drop_last())
    }
}

/// The last answer that is still growing and that will be kept, or -1.
pub open spec fn last_open_answer(list: Seq<MessageView>) -> int
    decreases list.len(),
{
    if list.len() == 0 {
        -1
    } else if list.last().is_open_answer() {
        list.len() - 1
    } else {
        last_open_answer(list.drop_last())
    }
}

proof fn lemma_last_open_answer(list: Seq<MessageView>)
    ensures
        -1 <= last_open_answer(list) < list.len(),
        last_open_answer(list) >= 0 ==> list[last_open_answer(list)].is_open_answer(),
        forall|k: int|
            last_open_answer(list) < k < list.len() ==> !(#[trigger] list[k]).is_open_answer(),
    decreases list.len(),
{
    if list.len() > 0 && !list.last().is_open_answer() {
        let rest = list.drop_last();
        lemma_last_open_answer(rest);
        assert forall|k: int| last_open_answer(list) < k < list.len() implies !(
        #[trigger] list[k]).is_open_answer() by {
            if k < rest.len() {
                assert(rest[k] == list[k]);
            }
        }
    }
}

fn find_open_text(list: &Vec<Message>) -> (r: Option<usize>)
    ensures
        match r {
            Some(i) => i < list.len() && i == last_open_text(conversation(list@)),
            None => last_open_text(conversation(list@)) == -1,
        },
{
    let ghost all = conversation(list@);
    let mut i: usize = list.len();
    assert(all.take(i as int) =~= all);
    while i > 0
        invariant
            i <= list.len(),
            all == conversation(list@),
            last_open_text(all) == last_open_text(all.take(i as int)),
        decreases i,
    {
        assert(all.take(i as int).last() == list@[i - 1]@);
        assert(all.take(i as int).drop_last() =~= all.take(i - 1));
        if !list[i - 1].is_tool() && !list[i - 1].complete {
            return Some(i - 1);
        }
        i -= 1;
    }
    None
}

fn find_open_tool(list: &Vec<Message>) -> (r: Option<usize>)
    ensures
        match r {
            Some(i) => i < list.len() && i == last_open_tool(conversation(list@)),
            None => last_open_tool(conversation(list@)) == -1,
        },
{
    let ghost all = conversation(list@);
    let mut i: usize = list.len();
    assert(all.take(i as int) =~= all);
    while i > 0
        invariant
            i <= list.len(),
            all == conversation(list@),
            last_open_tool(all) == last_open_tool(all.take(i as int)),
        decreases i,
    {
        assert(all.take(i as int).last() == list@[i - 1]@);
        assert(all.take(i as int).drop_last() =~= all.take(i - 1));
        if list[i - 1].is_tool() && !list[i - 1].complete {
            return Some(i - 1);
        }
        i -= 1;
    }
    None
}

fn is_open_answer(m: &Message) -> (r: bool)
    ensures
        r == m@.is_open_answer(),
{
    m.role == Role::Assistant && !m.is_context && !m.is_tool() && !m.complete
}

fn find_open_answer(list: &Vec<Message>) -> (r: Option<usize>)
    ensures
        match r {
            Some(i) => i < list.len() && i == last_open_answer(conversation(list@)),
            None => last_open_answer(conversation(list@)) == -1,
        },
{
    let ghost all = conversation(list@);
    let mut i: usize = list.len();
    assert(all.take(i as int) =~= all);
    while i > 0
        invariant
            i <= list.len(),
            all == conversation(list@),
            last_open_answer(all) == last_open_answer(all.take(i as int)),
        decreases i,
    {
        assert(all.take(i as int).last() == list@[i - 1]@);
        assert(all.take(i as int).drop_last() =~= all.take(i - 1));
        if is_open_answer(&list[i - 1]) {
            return Some(i - 1);
        }
        i -= 1;
    }
    None
}

// ---------------------------------------------------------------------------
// The transcript of an answer
// ---------------------------------------------------------------------------

/// The messages with a place for the transcript: the answer that is growing,
/// or a new one.
pub open spec fn with_answer(list: Seq<MessageView>) -> Seq<MessageView> {
    if last_open_answer(list) >= 0 {
        list
    } else {
        list.push(text_message(Role::Assistant, seq![], false, false))
    }
}

/// The messages with the transcript attached: the last growing answer carries
/// it, the others are only shown.
pub open spec fn with_transcript(list: Seq<MessageView>, items: Seq<JsonView>) -> Seq<MessageView> {
    let placed = with_answer(list);
    let at = last_open_answer(placed);
    Seq::new(
        placed.len(),
        |i: int|
            if i == at {
                MessageView { responses_items: items, ..placed[i] }
            } else if placed[i].is_open_answer() {
                MessageView { is_context: true, ..placed[i] }
            } else {
                placed[i]
            },
    )
}

/// What attaching does to the messages.
pub open spec fn attached(
    list: Seq<MessageView>,
    items: Seq<JsonView>,
    transient: bool,
) -> Seq<MessageView> {
    if transient || items.len() == 0 {
        list
    } else {
        with_transcript(list, items)
    }
}

/// Attaches the transcript of an answer to it. The raw transcript already
/// contains every assistant item from earlier tool rounds: those separate UI
/// fragments stay visible, but are excluded from persistence/API
/// reconstruction so they are not replayed twice. A transient answer gets none.
pub fn attach_responses_state(
    messages: &mut Vec<Message>,
    pending: &mut Vec<JsonValue>,
    transient: bool,
)
    ensures
        conversation(final(messages)@) == attached(
            conversation(old(messages)@),
            json_views(old(pending)@),
            transient,
        ),
        final(pending).len() == 0,
{
    if transient {
        pending.clear();
        return;
    }
    if pending.len() == 0 {
        return;
    }
    let ghost start = conversation(messages@);
    let ghost items = json_views(pending@);
    assert(items.len() == pending@.len());
    if find_open_answer(&*messages).is_none() {
        proof {
            reveal_strlit("");
            assert(""@ =~= seq![]);
        }
        push_message(messages, Message::text(Role::Assistant, "", false, false));
    }
    let ghost placed = conversation(messages@);
    assert(placed == with_answer(start));
    let ghost target = with_transcript(start, items);
    proof {
        lemma_last_open_answer(placed);
        if last_open_answer(start) < 0 {
            assert(placed.last().is_open_answer());
        }
    }
    if let Some(at) = find_open_answer(&*messages) {
        let mut taken: Vec<JsonValue> = Vec::new();
        taken.append(pending);
        assert(json_views(taken@) =~= items);
        let mut i: usize = 0;
        while i < messages.len()
            invariant
                i <= messages.len(),
                messages.len() == placed.len(),
                at == last_open_answer(placed),
                target == with_transcript(start, items),
                placed == with_answer(start),
                forall|k: int| 0 <= k < i && k != at ==> (#[trigger] messages@[k])@ == target[k],
                forall|k: int|
                    i <= k < messages.len() || k == at ==> (#[trigger] messages@[k])@ == placed[k],
                0 <= at < messages.len(),
            decreases messages.len() - i,
        {
            assert(messages@[i as int]@ == placed[i as int]);
            if i != at && is_open_answer(&messages[i]) {
                messages[i].is_context = true;
            }
            i += 1;
        }
        assert(messages@[at as int]@ == placed[at as int]);
        messages[at].responses_items = taken;
        assert(conversation(messages@) =~= target) by {
            assert forall|k: int| 0 <= k < target.len() implies conversation(messages@)[k]
                == #[trigger] target[k] by {
                assert(conversation(messages@)[k] == messages@[k]@);
            }
        }
    }
}

/// After a transcript is attached, exactly one growing answer is left that will
/// be kept, and it is the one that carries the transcript.
pub proof fn one_answer_carries_the_transcript(list: Seq<MessageView>, items: Seq<JsonView>)
    requires
        items.len() > 0,
    ensures
        ({
            let after = attached(list, items, false);
            let at = last_open_answer(with_answer(list));
            &&& 0 <= at < after.len()
            &&& after[at].is_open_answer()
            &&& after[at].responses_items == items
            &&& forall|k: int|
                0 <= k < after.len() && k != at ==> !(#[trigger] after[k]).is_open_answer()
        }),
{
    let placed = with_answer(list);
    lemma_last_open_answer(placed);
    lemma_last_open_answer(list);
    if last_open_answer(list) < 0 {
        assert(placed.last().is_open_answer());
    }
}

/// A transient answer never gains a transcript, and no message is added or kept
/// for it.
pub proof fn transient_answers_keep_no_transcript(list: Seq<MessageView>, items: Seq<JsonView>)
    ensures
        attached(list, items, true) == list,
{
}

// ---------------------------------------------------------------------------
// Events
// ---------------------------------------------------------------------------

/// An event of a running answer.
#[derive(Debug)]
pub enum StreamMsg {
    AssistantStart,
    Token(String),
    Reasoning(String),
    ResponsesState(Vec<JsonValue>),
    ToolStart { name: String, args_preview: String },
    ToolDone { result_preview: String },
    ToolFailed { error: String },
    ApprovalRequired { summary: String },
    Done,
    Failed(String),
}

pub enum EventView {
    AssistantStart,
    Token(Seq<char>),
    Reasoning(Seq<char>),
    ResponsesState(Seq<JsonView>),
    ToolStart { name: Seq<char>, args_preview: Seq<char> },
    ToolDone { result_preview: Seq<char> },
    ToolFailed { error: Seq<char> },
    ApprovalRequired { summary: Seq<char> },
    Done,
    Failed(Seq<char>),
}

impl View for StreamMsg {
    type V = EventView;

    open spec fn view(&self) -> EventView {
        match *self {
            StreamMsg::AssistantStart => EventView::AssistantStart,
            StreamMsg::Token(t) => EventView::Token(t@),
            StreamMsg::Reasoning(t) => EventView::Reasoning(t@),
            StreamMsg::ResponsesState(items) => EventView::ResponsesState(json_views(items@)),
            StreamMsg::ToolStart { name, args_preview } => EventView::ToolStart {
                name: name@,
                args_preview: args_preview@,
            },
            StreamMsg::ToolDone { result_preview } => EventView::ToolDone {
                result_preview: result_preview@,
            },
            StreamMsg::ToolFailed { error } => EventView::ToolFailed { error: error@ },
            StreamMsg::ApprovalRequired { summary } => EventView::ApprovalRequired {
                summary: summary@,
            },
            StreamMsg::Done => EventView::Done,
            StreamMsg::Failed(e) => EventView::Failed(e@),
        }
    }
}

pub open spec fn event_views(list: Seq<StreamMsg>) -> Seq<EventView> {
    list.map_values(|m: StreamMsg| m@)
}

/// The grapheme clusters of a text: `UnicodeSegmentation::graphemes`, with
/// extended clusters.
pub uninterp spec fn grapheme_clusters(text: Seq<char>) -> Seq<Seq<char>>;

/// The texts of a list, one after the other.
pub open spec fn concatenated(list: Seq<Seq<char>>) -> Seq<char>
    decreases list.len(),
{
    if list.len() == 0 {
        seq![]
    } else {
        concatenated(list.drop_last()) + list.last()
    }
}

/// Splits a text with `UnicodeSegmentation::graphemes`, extended clusters: a
/// function of the text, and the clusters put together again are the text.
/// Where the boundaries lie is not stated.
#[verifier::external_body]
fn graphemes(text: &str) -> (r: Vec<String>)
    ensures
        views(r@) == grapheme_clusters(text@),
        concatenated(views(r@)) == text@,
{
    text.graphemes(true).map(|g| g.to_string()).collect()
}

/// Whether the clusters of a token, put together again, are the token.
pub open spec fn splits_whole(event: EventView) -> bool {
    event matches EventView::Token(t) ==> concatenated(grapheme_clusters(t)) == t
}

pub open spec fn all_split_whole(events: Seq<EventView>) -> bool {
    forall|i: int| 0 <= i < events.len() ==> splits_whole(#[trigger] events[i])
}

/// The state of the conversation while answers stream in.
#[derive(Debug)]
pub struct ChatStream {
    pub messages: Vec<Message>,
    /// Graphemes buffered from received tokens, released for typewriter effect.
    pub queue: Vec<String>,
    /// Whether events are still expected.
    pub receiving: bool,
    pub is_streaming: bool,
    /// Set when the network stream finished (Done or Err) but the queue is still draining.
    pub pending_done: bool,
    /// Error message from a finished stream, displayed once the queue empties.
    pub pending_err: Option<String>,
    /// Stateless Responses transcript received for the current assistant turn.
    pub pending_items: Vec<JsonValue>,
    /// What the user is asked to approve.
    pub pending_approval: Option<String>,
    /// When true, the current stream is a /btw transient query: its messages
    /// are not persisted and are excluded from future API context.
    pub transient: bool,
    /// When true, the next AssistantStart message is marked as is_context so
    /// it is excluded from persistence and future API context.
    pub next_is_context: bool,
}

pub struct StreamView {
    pub messages: Seq<MessageView>,
    pub queue: Seq<Seq<char>>,
    pub receiving: bool,
    pub is_streaming: bool,
    pub pending_done: bool,
    pub pending_err: Option<Seq<char>>,
    pub pending_items: Seq<JsonView>,
    pub pending_approval: Option<Seq<char>>,
    pub transient: bool,
    pub next_is_context: bool,
}

impl View for ChatStream {
    type V = StreamView;

    open spec fn view(&self) -> StreamView {
        StreamView {
            messages: conversation(self.messages@),
            queue: views(self.queue@),
            receiving: self.receiving,
            is_streaming: self.is_streaming,
            pending_done: self.pending_done,
            pending_err: opt_view(self.pending_err),
            pending_items: json_views(self.pending_items@),
            pending_approval: opt_view(self.pending_approval),
            transient: self.transient,
            next_is_context: self.next_is_context,
        }
    }
}

pub open spec fn with_content(list: Seq<MessageView>, at: int, content: Seq<char>) -> Seq<
    MessageView,
> {
    list.update(at, MessageView { content, ..list[at] })
}

/// The messages with text added to the one that is growing, if any.
pub open spec fn grown(list: Seq<MessageView>, text: Seq<char>) -> Seq<MessageView> {
    let at = last_open_text(list);
    if at < 0 {
        list
    } else {
        with_content(list, at, list[at].content + text)
    }
}

/// The messages with reasoning added to the one that is growing, if any.
pub open spec fn reasoned(list: Seq<MessageView>, text: Seq<char>) -> Seq<MessageView> {
    let at = last_open_text(list);
    if at < 0 {
        list
    } else {
        list.update(
            at,
            MessageView { reasoning_content: list[at].reasoning_content + text, ..list[at] },
        )
    }
}

/// The messages with the running tool call ended.
pub open spec fn tool_ended(list: Seq<MessageView>, result: Seq<char>) -> Seq<MessageView> {
    let at = last_open_tool(list);
    if at < 0 {
        list
    } else {
        list.update(at, MessageView { content: result, complete: true, ..list[at] })
    }
}

/// The messages with the running tool call failed; an error without one gets a
/// line of its own.
pub open spec fn tool_broken(list: Seq<MessageView>, error: Seq<char>) -> Seq<MessageView> {
    let at = last_open_tool(list);
    if at < 0 {
        list.push(
            text_message(Role::Assistant, "[tool error: "@ + error + "]"@, true, false),
        )
    } else {
        list.update(
            at,
            MessageView { content: error, complete: true, tool_failed: true, ..list[at] },
        )
    }
}

/// The state after one event.
pub open spec fn applied(st: StreamView, event: EventView) -> StreamView {
    match event {
        EventView::AssistantStart => StreamView {
            messages: st.messages.push(
                text_message(Role::Assistant, seq![], false, st.next_is_context),
            ),
            next_is_context: false,
            ..st
        },
        EventView::Token(t) => StreamView { queue: st.queue + grapheme_clusters(t), ..st },
        EventView::Reasoning(t) => StreamView { messages: reasoned(st.messages, t), ..st },
        EventView::ResponsesState(items) => StreamView { pending_items: items, ..st },
        EventView::ToolStart { name, args_preview } => StreamView {
            messages: st.messages.push(tool_message(name, args_preview)),
            ..st
        },
        EventView::ToolDone { result_preview } => StreamView {
            messages: tool_ended(st.messages, result_preview),
            ..st
        },
        EventView::ToolFailed { error } => StreamView {
            messages: tool_broken(st.messages, error),
            ..st
        },
        EventView::ApprovalRequired { summary } => StreamView {
            pending_approval: Some(summary),
            ..st
        },
        EventView::Done => StreamView { receiving: false, pending_done: true, ..st },
        EventView::Failed(e) => StreamView { receiving: false, pending_err: Some(e), ..st },
    }
}

/// Whether an event shows at once.
pub open spec fn shows(event: EventView) -> bool {
    matches!(
        event,
        EventView::AssistantStart | EventView::ToolStart { .. } | EventView::ToolDone { .. }
            | EventView::ToolFailed { .. } | EventView::ApprovalRequired { .. }
    )
}

/// Whether the events that follow have to wait: for the user's approval, or for
/// ever.
pub open spec fn halts(event: EventView) -> bool {
    matches!(
        event,
        EventView::ApprovalRequired { .. } | EventView::Done | EventView::Failed(_)
    )
}

/// The state after the events that are there, whether any of them shows, and
/// how many were taken.
pub open spec fn received(
    st: StreamView,
    events: Seq<EventView>,
    closed: bool,
) -> (StreamView, bool, nat)
    decreases events.len(),
{
    if !st.receiving {
        (st, false, 0)
    } else if events.len() == 0 {
        (
            if closed {
                StreamView { receiving: false, pending_done: true, ..st }
            } else {
                st
            },
            false,
            0,
        )
    } else {
        let next = applied(st, events[0]);
        if halts(events[0]) {
            (next, shows(events[0]), 1)
        } else {
            let rest = received(next, events.drop_first(), closed);
            (rest.0, shows(events[0]) || rest.1, rest.2 + 1)
        }
    }
}

/// How many graphemes are released at once: more where more of them wait.
pub open spec fn release_count(waiting: nat) -> nat {
    if waiting <= 5 {
        3
    } else if waiting <= 30 {
        8
    } else if waiting <= 80 {
        16
    } else {
        24
    }
}

pub open spec fn at_most(n: nat, max: nat) -> nat {
    if n <= max {
        n
    } else {
        max
    }
}

/// The state after some graphemes are released into the growing message.
pub open spec fn released(st: StreamView) -> StreamView {
    let n = at_most(release_count(st.queue.len()), st.queue.len()) as int;
    StreamView {
        messages: if n == 0 {
            st.messages
        } else {
            grown(st.messages, concatenated(st.queue.take(n)))
        },
        queue: st.queue.skip(n),
        ..st
    }
}

/// The messages once a stream failed: the error ends the growing message, or
/// gets a line of its own.
pub open spec fn with_error(list: Seq<MessageView>, error: Seq<char>) -> Seq<MessageView> {
    let note = "[error: "@ + error + "]"@;
    if list.len() == 0 || list.last().is_tool() || list.last().complete {
        list.push(text_message(Role::Assistant, note, true, false))
    } else {
        let last = list.last();
        list.update(
            list.len() - 1,
            MessageView {
                content: if last.content.len() == 0 {
                    note
                } else {
                    last.content + ("\n"@ + note)
                },
                complete: true,
                ..last
            },
        )
    }
}

pub open spec fn completed(list: Seq<MessageView>) -> Seq<MessageView> {
    list.map_values(
        |m: MessageView|
            if m.is_open_text() {
                MessageView { complete: true, ..m }
            } else {
                m
            },
    )
}

/// An answer that came to nothing.
pub open spec fn is_hollow(m: MessageView) -> bool {
    m.role == Role::Assistant && !m.is_context && !m.is_tool() && m.complete && m.content.len()
        == 0 && m.reasoning_content.len() == 0 && m.responses_items.len() == 0
}

/// The messages that came to something.
pub open spec fn without_hollow(list: Seq<MessageView>) -> Seq<MessageView>
    decreases list.len(),
{
    if list.len() == 0 {
        seq![]
    } else {
        let before = without_hollow(list.drop_last());
        if is_hollow(list.last()) {
            before
        } else {
            before.push(list.last())
        }
    }
}

/// Whether the answer is over and all of it is shown.
pub open spec fn is_over(st: StreamView) -> bool {
    st.queue.len() == 0 && (st.pending_done || st.pending_err is Some)
}

/// The state once the answer is over.
pub open spec fn finalized(st: StreamView) -> StreamView {
    StreamView {
        messages: match st.pending_err {
            Some(e) => with_error(st.messages, e),
            None => without_hollow(
                completed(attached(st.messages, st.pending_items, st.transient)),
            ),
        },
        pending_items: match st.pending_err {
            Some(_) => st.pending_items,
            None => seq![],
        },
        pending_err: None,
        pending_done: false,
        is_streaming: false,
        transient: false,
        ..st
    }
}

/// What is left to do after a round of events.
#[derive(Debug)]
pub struct DrainOutcome {
    pub changed: bool,
    /// How many events were taken.
    pub consumed: usize,
    /// The events that wait for the next round.
    pub remaining: Vec<StreamMsg>,
    /// What a banner says about an approval that is wanted.
    pub approval_notice: Option<String>,
    /// Whether a banner announces the end of the answer.
    pub notify_complete: bool,
    pub save_history: bool,
    /// Whether memories are extracted from the conversation.
    pub extract_memories: bool,
}

/// The state after a whole round, whether it changed, and how many events were
/// taken.
pub open spec fn drained(st: StreamView, events: Seq<EventView>, closed: bool) -> (
    StreamView,
    bool,
    nat,
) {
    let (after, shown, taken) = received(st, events, closed);
    let shorter = released(after);
    let moved = after.queue.len() > 0;
    if is_over(shorter) {
        (finalized(shorter), true, taken)
    } else {
        (shorter, shown || moved, taken)
    }
}

/// What a banner says about the approval that the round ends with, if any.
pub open spec fn approval_note(st: StreamView, events: Seq<EventView>, closed: bool) -> Option<
    Seq<char>,
> {
    note_of(events, received(st, events, closed).2)
}

pub open spec fn note_of(events: Seq<EventView>, taken: nat) -> Option<Seq<char>> {
    if taken > 0 {
        match events[taken - 1] {
            EventView::ApprovalRequired { summary } => Some(
                prefix_chars(summary, APPROVAL_NOTIFICATION_CHARS as nat),
            ),
            _ => None,
        }
    } else {
        None
    }
}

/// The end of an answer, where the round brings it: whether it failed, and
/// whether it was transient.
pub open spec fn ending(st: StreamView, events: Seq<EventView>, closed: bool) -> Option<
    (bool, bool),
> {
    let shorter = released(received(st, events, closed).0);
    if is_over(shorter) {
        Some((shorter.pending_err is Some, shorter.transient))
    } else {
        None
    }
}

/// The events in the opposite order.
fn reversed(events: Vec<StreamMsg>) -> (r: Vec<StreamMsg>)
    ensures
        r@ == events@.reverse(),
{
    let ghost all = events@;
    let mut left = events;
    let mut out: Vec<StreamMsg> = Vec::new();
    while left.len() > 0
        invariant
            left.len() + out.len() == all.len(),
            forall|k: int| 0 <= k < left.len() ==> #[trigger] left@[k] == all[k],
            forall|k: int| 0 <= k < out.len() ==> #[trigger] out@[k] == all[all.len() - 1 - k],
        decreases left.len(),
    {
        if let Some(event) = left.pop() {
            out.push(event);
        }
    }
    assert(out@ =~= all.reverse());
    out
}

impl ChatStream {
    fn grow(&mut self, text: &str)
        ensures
            final(self)@ == (StreamView { messages: grown(old(self)@.messages, text@), ..old(
                self,
            )@ }),
    {
        let ghost before = conversation(self.messages@);
        if let Some(at) = find_open_text(&self.messages) {
            self.messages[at].content.append(text);
            assert(conversation(self.messages@) =~= grown(before, text@));
        }
        assert(self@.messages == grown(before, text@));
    }

    fn reason(&mut self, text: &str)
        ensures
            final(self)@ == (StreamView { messages: reasoned(old(self)@.messages, text@), ..old(
                self,
            )@ }),
    {
        let ghost before = conversation(self.messages@);
        if let Some(at) = find_open_text(&self.messages) {
            self.messages[at].reasoning_content.append(text);
            assert(conversation(self.messages@) =~= reasoned(before, text@));
        }
        assert(self@.messages == reasoned(before, text@));
    }

    fn end_tool(&mut self, result: String)
        ensures
            final(self)@ == (StreamView {
                messages: tool_ended(old(self)@.messages, result@),
                ..old(self)@
            }),
    {
        let ghost before = conversation(self.messages@);
        if let Some(at) = find_open_tool(&self.messages) {
            self.messages[at].content = result;
            self.messages[at].complete = true;
            assert(conversation(self.messages@) =~= tool_ended(before, result@));
        }
        assert(self@.messages == tool_ended(before, result@));
    }

    fn break_tool(&mut self, error: String)
        ensures
            final(self)@ == (StreamView {
                messages: tool_broken(old(self)@.messages, error@),
                ..old(self)@
            }),
    {
        let ghost before = conversation(self.messages@);
        match find_open_tool(&self.messages) {
            Some(at) => {
                self.messages[at].content = error;
                self.messages[at].complete = true;
                self.messages[at].tool_failed = true;
                assert(conversation(self.messages@) =~= tool_broken(before, error@));
            },
            None => {
                // No incomplete tool row: push a new error message so it's visible.
                let note = concat3("[tool error: ", error.as_str(), "]");
                push_message(
                    &mut self.messages,
                    Message::text(Role::Assistant, note.as_str(), true, false),
                );
            },
        }
        assert(self@.messages == tool_broken(before, error@));
    }

    fn enqueue(&mut self, text: &str)
        ensures
            final(self)@ == (StreamView {
                queue: old(self)@.queue + grapheme_clusters(text@),
                ..old(self)@
            }),
            concatenated(grapheme_clusters(text@)) == text@,
    {
        let mut more = graphemes(text);
        let ghost before = views(self.queue@);
        let ghost added = views(more@);
        self.queue.append(&mut more);
        assert(views(self.queue@) =~= before + added);
    }

    /// Takes one event. The result says whether it shows, and whether the events
    /// that follow have to wait.
    pub fn apply_event(&mut self, event: StreamMsg) -> (r: (bool, bool))
        ensures
            final(self)@ == applied(old(self)@, event@),
            r.0 == shows(event@),
            r.1 == halts(event@),
            splits_whole(event@),
    {
        match event {
            StreamMsg::AssistantStart => {
                let is_ctx = self.next_is_context;
                self.next_is_context = false;
                proof {
                    reveal_strlit("");
                    assert(""@ =~= seq![]);
                }
                push_message(&mut self.messages, Message::text(Role::Assistant, "", false, is_ctx));
                (true, false)
            },
            StreamMsg::Token(t) => {
                self.enqueue(t.as_str());
                (false, false)
            },
            StreamMsg::Reasoning(t) => {
                self.reason(t.as_str());
                (false, false)
            },
            StreamMsg::ResponsesState(items) => {
                self.pending_items = items;
                (false, false)
            },
            StreamMsg::ToolStart { name, args_preview } => {
                push_message(
                    &mut self.messages,
                    Message::tool_event(name.as_str(), args_preview.as_str()),
                );
                (true, false)
            },
            StreamMsg::ToolDone { result_preview } => {
                self.end_tool(result_preview);
                (true, false)
            },
            StreamMsg::ToolFailed { error } => {
                self.break_tool(error);
                (true, false)
            },
            StreamMsg::ApprovalRequired { summary } => {
                self.pending_approval = Some(summary);
                (true, true)
            },
            StreamMsg::Done => {
                self.receiving = false;
                self.pending_done = true;
                (false, true)
            },
            StreamMsg::Failed(e) => {
                self.receiving = false;
                self.pending_err = Some(e);
                (false, true)
            },
        }
    }

    /// Release graphemes with backpressure-adaptive pacing. The text goes to the
    /// last incomplete text message, not to tool events, which may be the latest
    /// message when tokens were buffered before the tool started.
    fn release(&mut self) -> (r: bool)
        ensures
            final(self)@ == released(old(self)@),
            r == (old(self)@.queue.len() > 0),
    {
        let ghost st = self@;
        let waiting: usize = self.queue.len();
        let limit: usize = if waiting <= 5 {
            3
        } else if waiting <= 30 {
            8
        } else if waiting <= 80 {
            16
        } else {
            24
        };
        let n: usize = if limit <= waiting {
            limit
        } else {
            waiting
        };
        if n == 0 {
            assert(st.queue.skip(0) =~= st.queue);
            return false;
        }
        let mut text = String::new();
        let mut i: usize = 0;
        assert(concatenated(st.queue.take(0)) =~= seq![]);
        while i < n
            invariant
                i <= n <= self.queue.len(),
                st.queue == views(self.queue@),
                st == self@,
                text@ == concatenated(st.queue.take(i as int)),
            decreases n - i,
        {
            assert(st.queue.take(i + 1).drop_last() =~= st.queue.take(i as int));
            assert(st.queue.take(i + 1).last() == self.queue@[i as int]@);
            text.append(self.queue[i].as_str());
            i += 1;
        }
        let rest = self.queue.split_off(n);
        self.queue = rest;
        assert(views(self.queue@) =~= st.queue.skip(n as int));
        self.grow(text.as_str());
        true
    }

    fn finish_with_error(&mut self, error: &str)
        ensures
            final(self)@ == (StreamView {
                messages: with_error(old(self)@.messages, error@),
                ..old(self)@
            }),
    {
        let note = concat3("[error: ", error, "]");
        let ghost before = conversation(self.messages@);
        let n: usize = self.messages.len();
        let needs_new = n == 0 || self.messages[n - 1].is_tool() || self.messages[n - 1].complete;
        assert(n > 0 ==> before.last() == self.messages@[n - 1]@);
        if needs_new {
            push_message(
                &mut self.messages,
                Message::text(Role::Assistant, note.as_str(), true, false),
            );
        } else {
            if self.messages[n - 1].content.as_str().is_empty() {
                self.messages[n - 1].content = note;
            } else {
                let line = concat2("\n", note.as_str());
                self.messages[n - 1].content.append(line.as_str());
            }
            self.messages[n - 1].complete = true;
            assert(conversation(self.messages@) =~= with_error(before, error@));
        }
    }

    fn complete_all(&mut self)
        ensures
            final(self)@ == (StreamView { messages: completed(old(self)@.messages), ..old(self)@ }),
    {
        let ghost before = conversation(self.messages@);
        let ghost st = self@;
        let ghost target = completed(before);
        let mut i: usize = 0;
        while i < self.messages.len()
            invariant
                i <= self.messages.len(),
                self.messages.len() == before.len(),
                target == completed(before),
                self@ == (StreamView { messages: conversation(self.messages@), ..st }),
                forall|k: int| 0 <= k < i ==> (#[trigger] self.messages@[k])@ == target[k],
                forall|k: int|
                    i <= k < before.len() ==> (#[trigger] self.messages@[k])@ == before[k],
            decreases self.messages.len() - i,
        {
            assert(self.messages@[i as int]@ == before[i as int]);
            if !self.messages[i].is_tool() && !self.messages[i].complete {
                self.messages[i].complete = true;
            }
            i += 1;
        }
        assert(conversation(self.messages@) =~= target) by {
            assert forall|k: int| 0 <= k < target.len() implies conversation(self.messages@)[k]
                == #[trigger] target[k] by {
                assert(conversation(self.messages@)[k] == self.messages@[k]@);
            }
        }
    }

    fn drop_hollow(&mut self)
        ensures
            final(self)@ == (StreamView {
                messages: without_hollow(old(self)@.messages),
                ..old(self)@
            }),
    {
        let ghost before = conversation(self.messages@);
        let ghost st = self@;
        let mut i: usize = 0;
        let ghost mut seen: int = 0;
        assert(before.skip(0) =~= before);
        assert(before.take(0) =~= seq![]);
        while i < self.messages.len()
            invariant
                i <= self.messages.len(),
                0 <= seen <= before.len(),
                self.messages.len() - i == before.len() - seen,
                self@ == (StreamView { messages: conversation(self.messages@), ..st }),
                conversation(self.messages@).take(i as int) == without_hollow(before.take(seen)),
                conversation(self.messages@).skip(i as int) == before.skip(seen),
            decreases self.messages.len() - i,
        {
            let ghost now = conversation(self.messages@);
            let m = &self.messages[i];
            let hollow = m.role == Role::Assistant && !m.is_context && !m.is_tool() && m.complete
                && m.content.as_str().is_empty() && m.reasoning_content.as_str().is_empty()
                && m.responses_items.len() == 0;
            proof {
                assert(now[i as int] == self.messages@[i as int]@);
                assert(now.skip(i as int)[0] == before.skip(seen)[0]);
                assert(before[seen] == now[i as int]);
                assert(before.take(seen + 1).drop_last() =~= before.take(seen));
                assert(before.take(seen + 1).last() == before[seen]);
                assert(json_views(m.responses_items@).len() == m.responses_items@.len());
                assert(hollow == is_hollow(before[seen]));
            }
            if hollow {
                self.messages.remove(i);
                proof {
                    let after = conversation(self.messages@);
                    assert(after =~= now.remove(i as int));
                    assert(after.take(i as int) =~= now.take(i as int));
                    assert(after.skip(i as int) =~= now.skip(i as int).drop_first());
                    assert(before.skip(seen).drop_first() =~= before.skip(seen + 1));
                }
            } else {
                proof {
                    assert(now.take(i + 1) =~= now.take(i as int).push(now[i as int]));
                    assert(now.skip(i + 1) =~= now.skip(i as int).drop_first());
                    assert(before.skip(seen).drop_first() =~= before.skip(seen + 1));
                }
                i += 1;
            }
            proof {
                seen = seen + 1;
            }
        }
        assert(before.take(seen) =~= before);
        assert(conversation(self.messages@).take(i as int) =~= conversation(self.messages@));
    }

    /// Ends an answer that is over.
    fn finalize(&mut self)
        requires
            is_over(old(self)@),
        ensures
            final(self)@ == finalized(old(self)@),
    {
        let ghost st = self@;
        let error = self.pending_err.take();
        match error {
            Some(e) => {
                self.finish_with_error(e.as_str());
            },
            None => {
                // `/btw` responses are display-only. Raw Responses items must
                // not create a non-context assistant turn that later leaks the
                // side question into saved/API history.
                attach_responses_state(&mut self.messages, &mut self.pending_items, self.transient);
                assert(json_views(self.pending_items@) =~= seq![]);
                self.complete_all();
                self.drop_hollow();
            },
        }
        self.pending_done = false;
        self.is_streaming = false;
        self.transient = false;
    }

    /// Drain pending stream events. Non-token events (tool start/done, assistant
    /// placeholder) are processed immediately. Token events feed the grapheme
    /// queue for typewriter-paced rendering. `closed` says that no further event
    /// will come, which counts as the end of the answer.
    pub fn drain_tokens(&mut self, events: Vec<StreamMsg>, closed: bool) -> (r: DrainOutcome)
        ensures
            ({
                let (after, changed, taken) = drained(old(self)@, event_views(events@), closed);
                &&& final(self)@ == after
                &&& r.changed == changed
                &&& r.consumed == taken
            }),
            ({
                let end = ending(old(self)@, event_views(events@), closed);
                &&& r.notify_complete == (end == Some((false, false)))
                &&& r.save_history == (end matches Some(e) && !e.1)
                &&& r.extract_memories == (end == Some((false, false)))
            }),
            opt_view(r.approval_notice) == approval_note(old(self)@, event_views(events@), closed),
            r.consumed <= events@.len(),
            r.remaining@ == events@.skip(r.consumed as int),
            forall|i: int| 0 <= i < r.consumed ==> splits_whole(#[trigger] event_views(events@)[i]),
    {
        let ghost st = self@;
        let ghost all = event_views(events@);
        let total: usize = events.len();
        let mut notice: Option<String> = None;
        let mut changed = false;
        let mut consumed: usize = 0;
        let mut stopped = false;
        let mut rest = reversed(events);
        proof {
            lemma_received(st, all, closed);
            assert(all.skip(0) =~= all);
        }
        while self.receiving && !stopped && rest.len() > 0
            invariant
                total == all.len(),
                all == event_views(events@),
                total == events@.len(),
                consumed <= total,
                rest.len() == total - consumed,
                forall|k: int| 0 <= k < rest.len() ==> #[trigger] rest@[k] == events@[
                    total - 1 - k
                ],
                received(st, all, closed).2 <= total,
                !stopped ==> received(st, all, closed) == ({
                    let tail = received(self@, all.skip(consumed as int), closed);
                    (tail.0, changed || tail.1, tail.2 + consumed as nat)
                }),
                stopped ==> received(st, all, closed) == (self@, changed, consumed as nat),
                opt_view(notice) == note_of(all, consumed as nat),
                forall|i: int| 0 <= i < consumed ==> splits_whole(#[trigger] all[i]),
            decreases rest.len(),
        {
            let ghost at = consumed as int;
            let ghost before = self@;
            assert(rest@[rest.len() - 1] == events@[at]);
            if let Some(event) = rest.pop() {
                let ghost view = event@;
                assert(all.skip(at)[0] == view);
                assert(all[at] == view);
                assert(all.skip(at).drop_first() =~= all.skip(at + 1));
                notice = match &event {
                    StreamMsg::ApprovalRequired { summary } => Some(
                        take_chars(summary.as_str(), APPROVAL_NOTIFICATION_CHARS),
                    ),
                    _ => None,
                };
                let (shown, halt) = self.apply_event(event);
                changed = changed || shown;
                stopped = halt;
                consumed += 1;
            }
        }
        if self.receiving && !stopped && closed {
            // Background thread exited (e.g. after cancel). Treat as Done so
            // is_streaming is cleared even when no explicit Done was sent.
            self.receiving = false;
            self.pending_done = true;
            assert(all.skip(consumed as int).len() == 0);
        }
        proof {
            assert(received(st, all, closed) == (self@, changed, consumed as nat));
        }
        let remaining = reversed(rest);
        assert(remaining@ =~= events@.skip(consumed as int));
        if self.release() {
            changed = true;
        }
        let mut notify = false;
        let mut save = false;
        let had_error = self.pending_err.is_some();
        if self.queue.len() == 0 && (self.pending_done || had_error) {
            let was_transient = self.transient;
            self.finalize();
            notify = !was_transient && !had_error;
            save = !was_transient;
            changed = true;
        }
        DrainOutcome {
            changed,
            consumed,
            remaining,
            approval_notice: notice,
            notify_complete: notify,
            save_history: save,
            extract_memories: notify,
        }
    }

    /// Cancel any in-progress stream and reset streaming state.
    pub fn cancel_stream(&mut self)
        ensures
            final(self)@ == cancelled(old(self)@),
            final(self).messages == old(self).messages,
    {
        self.receiving = false;
        self.is_streaming = false;
        self.queue = Vec::new();
        self.pending_done = false;
        self.pending_err = None;
        self.pending_items = Vec::new();
        assert(views(self.queue@) =~= seq![]);
        assert(json_views(self.pending_items@) =~= seq![]);
    }

    /// Ends the growing message when the chat is closed in the middle of an
    /// answer.
    pub fn close_open_message(&mut self)
        ensures
            final(self)@ == (if old(self)@.is_streaming || old(self)@.pending_done {
                StreamView { messages: last_closed(old(self)@.messages), ..old(self)@ }
            } else {
                old(self)@
            }),
    {
        if self.is_streaming || self.pending_done {
            let ghost before = conversation(self.messages@);
            if let Some(at) = find_open_text(&self.messages) {
                self.messages[at].complete = true;
                assert(conversation(self.messages@) =~= last_closed(before));
            }
            assert(self@.messages == last_closed(before));
        }
    }

    /// Resets the stream for a new answer, once the question is in place.
    pub fn start_stream(&mut self, transient: bool)
        ensures
            final(self)@ == started(old(self)@, transient),
    {
        self.is_streaming = true;
        self.receiving = true;
        self.queue = Vec::new();
        self.pending_done = false;
        self.pending_err = None;
        self.pending_items = Vec::new();
        if transient {
            self.transient = true;
            self.next_is_context = true;
        }
        assert(views(self.queue@) =~= seq![]);
        assert(json_views(self.pending_items@) =~= seq![]);
    }
}

pub open spec fn cancelled(st: StreamView) -> StreamView {
    StreamView {
        receiving: false,
        is_streaming: false,
        queue: seq![],
        pending_done: false,
        pending_err: None,
        pending_items: seq![],
        ..st
    }
}

pub open spec fn last_closed(list: Seq<MessageView>) -> Seq<MessageView> {
    let at = last_open_text(list);
    if at < 0 {
        list
    } else {
        list.update(at, MessageView { complete: true, ..list[at] })
    }
}

/// Closing the growing message neither adds nor drops one.
pub proof fn closing_keeps_messages(list: Seq<MessageView>)
    ensures
        last_closed(list).len() == list.len(),
{
    lemma_last_open_text(list);
}

proof fn lemma_last_open_text(list: Seq<MessageView>)
    ensures
        -1 <= last_open_text(list) < list.len(),
    decreases list.len(),
{
    if list.len() > 0 && !list.last().is_open_text() {
        lemma_last_open_text(list.drop_last());
    }
}

/// A stream that has just been started: a transient one marks its answer.
pub open spec fn started(st: StreamView, transient: bool) -> StreamView {
    StreamView {
        receiving: true,
        is_streaming: true,
        queue: seq![],
        pending_done: false,
        pending_err: None,
        pending_items: seq![],
        transient: transient || st.transient,
        next_is_context: transient || st.next_is_context,
        ..st
    }
}

pub(crate) proof fn lemma_concatenated(a: Seq<Seq<char>>, b: Seq<Seq<char>>)
    ensures
        concatenated(a + b) == concatenated(a) + concatenated(b),
    decreases b.len(),
{
    if b.len() == 0 {
        assert(a + b =~= a);
        assert(concatenated(a) + concatenated(b) =~= concatenated(a));
    } else {
        assert((a + b).drop_last() =~= a + b.drop_last());
        lemma_concatenated(a, b.drop_last());
        assert(concatenated(a) + (concatenated(b.drop_last()) + b.last()) =~= (concatenated(a)
            + concatenated(b.drop_last())) + b.last());
    }
}

/// Releasing graphemes loses no text: what was shown and what waits make up the
/// same text as before, as long as there is a message to show it in.
pub proof fn released_text_is_kept(st: StreamView)
    requires
        last_open_text(st.messages) >= 0,
    ensures
        ({
            let at = last_open_text(st.messages);
            let after = released(st);
            &&& after.messages.len() == st.messages.len()
            &&& after.messages[at].content + concatenated(after.queue)
                == st.messages[at].content + concatenated(st.queue)
            &&& st.queue.len() > 0 ==> after.queue.len() < st.queue.len()
        }),
{
    lemma_last_open_text(st.messages);
    let at = last_open_text(st.messages);
    let n = at_most(release_count(st.queue.len()), st.queue.len()) as int;
    let head = st.queue.take(n);
    let tail = st.queue.skip(n);
    lemma_concatenated(head, tail);
    assert(head + tail =~= st.queue);
    if n == 0 {
        assert(tail =~= st.queue);
    }
    let content = st.messages[at].content;
    assert((content + concatenated(head)) + concatenated(tail) =~= content + (concatenated(head)
        + concatenated(tail)));
}

/// Whether the events are the tokens of an answer and then its end.
pub open spec fn is_answer(events: Seq<EventView>) -> bool {
    &&& events.len() > 0
    &&& events.last() == EventView::Done
    &&& forall|i: int| 0 <= i < events.len() - 1 ==> (#[trigger] events[i]) is Token
}

/// The clusters that the tokens bring, in order.
pub open spec fn clusters_of(events: Seq<EventView>) -> Seq<Seq<char>>
    decreases events.len(),
{
    if events.len() == 0 {
        seq![]
    } else {
        match events[0] {
            EventView::Token(t) => grapheme_clusters(t) + clusters_of(events.drop_first()),
            _ => clusters_of(events.drop_first()),
        }
    }
}

/// The text that the tokens bring, in order.
pub open spec fn text_of_tokens(events: Seq<EventView>) -> Seq<char>
    decreases events.len(),
{
    if events.len() == 0 {
        seq![]
    } else {
        match events[0] {
            EventView::Token(t) => t + text_of_tokens(events.drop_first()),
            _ => text_of_tokens(events.drop_first()),
        }
    }
}

/// The measure by which the rounds without events come to an end.
pub open spec fn rounds_left(st: StreamView) -> nat {
    2 * st.queue.len() + if st.pending_done || st.pending_err is Some {
        1nat
    } else {
        0
    }
}

/// The state once rounds without events were made until one changes nothing.
pub open spec fn drained_out(st: StreamView) -> StreamView
    decreases rounds_left(st),
{
    let (next, changed, _) = drained(st, seq![], false);
    if changed && rounds_left(next) < rounds_left(st) {
        drained_out(next)
    } else {
        next
    }
}

/// Every round without events that changes something brings the end nearer.
pub proof fn rounds_come_to_an_end(st: StreamView)
    ensures
        drained(st, seq![], false).1 ==> rounds_left(drained(st, seq![], false).0) < rounds_left(
            st,
        ),
{
}

proof fn lemma_answer_received(st: StreamView, events: Seq<EventView>, closed: bool)
    requires
        st.receiving,
        is_answer(events),
    ensures
        received(st, events, closed) == (
            StreamView {
                queue: st.queue + clusters_of(events),
                receiving: false,
                pending_done: true,
                ..st
            },
            false,
            events.len(),
        ),
    decreases events.len(),
{
    let rest = events.drop_first();
    if events.len() == 1 {
        assert(clusters_of(rest) =~= seq![]);
        assert(st.queue + clusters_of(events) =~= st.queue);
    } else {
        assert(events[0] is Token);
        assert forall|i: int| 0 <= i < rest.len() - 1 implies (#[trigger] rest[i]) is Token by {
            assert(rest[i] == events[i + 1]);
        }
        assert(rest.last() == events.last());
        let next = applied(st, events[0]);
        lemma_answer_received(next, rest, closed);
        let head = grapheme_clusters(events[0]->Token_0);
        assert((st.queue + head) + clusters_of(rest) =~= st.queue + (head + clusters_of(rest)));
    }
}

proof fn lemma_whole_text(events: Seq<EventView>)
    requires
        all_split_whole(events),
    ensures
        concatenated(clusters_of(events)) == text_of_tokens(events),
    decreases events.len(),
{
    if events.len() > 0 {
        let rest = events.drop_first();
        assert forall|i: int| 0 <= i < rest.len() implies splits_whole(#[trigger] rest[i]) by {
            assert(rest[i] == events[i + 1]);
        }
        lemma_whole_text(rest);
        assert(splits_whole(events[0]));
        if let EventView::Token(t) = events[0] {
            lemma_concatenated(grapheme_clusters(t), clusters_of(rest));
        }
    }
}

/// A stream whose end has come in, with its last message still growing.
pub open spec fn is_ending(st: StreamView) -> bool {
    &&& !st.receiving
    &&& st.pending_done
    &&& st.pending_err is None
    &&& st.messages.len() > 0
    &&& st.messages.last().is_open_text()
}

/// The state with all that waits in the last message.
pub open spec fn poured_out(st: StreamView) -> StreamView {
    let at = st.messages.len() - 1;
    StreamView {
        messages: with_content(
            st.messages,
            at,
            st.messages[at].content + concatenated(st.queue),
        ),
        queue: seq![],
        ..st
    }
}

proof fn lemma_poured_out(st: StreamView)
    requires
        is_ending(st),
    ensures
        poured_out(released(st)) == poured_out(st),
        is_ending(released(st)),
{
    let at = st.messages.len() - 1;
    let after = released(st);
    let n = at_most(release_count(st.queue.len()), st.queue.len()) as int;
    let head = st.queue.take(n);
    let tail = st.queue.skip(n);
    lemma_concatenated(head, tail);
    assert(head + tail =~= st.queue);
    let content = st.messages[at].content;
    if n == 0 {
        assert(tail =~= st.queue);
    } else {
        assert(content + concatenated(head) + concatenated(tail) =~= content + concatenated(
            st.queue,
        ));
    }
    assert(poured_out(after).messages =~= poured_out(st).messages);
}

pub(crate) proof fn lemma_drained_out(st: StreamView, events: Seq<EventView>, closed: bool)
    requires
        is_ending(st),
    ensures
        drained_out(drained(st, events, closed).0) == finalized(poured_out(st)),
    decreases st.queue.len(),
{
    let after = released(st);
    lemma_poured_out(st);
    if after.queue.len() == 0 {
        let at = st.messages.len() - 1;
        assert(concatenated(after.queue) =~= seq![]);
        assert(after.messages[at].content + concatenated(after.queue)
            =~= after.messages[at].content);
        assert(poured_out(after).messages =~= after.messages);
        assert(after.queue =~= seq![]);
        assert(poured_out(after) == after);
        let end = finalized(after);
        assert(released(end).queue =~= end.queue);
        assert(drained(end, seq![], false).0 == end);
        assert(drained_out(end) == end);
    } else {
        lemma_drained_out(after, seq![], false);
        rounds_come_to_an_end(after);
    }
}

pub(crate) proof fn lemma_hollow_dropped(list: Seq<MessageView>, i: int)
    requires
        0 <= i < list.len(),
        !is_hollow(list[i]),
    ensures
        without_hollow(list).contains(list[i]),
    decreases list.len(),
{
    let rest = list.drop_last();
    let before = without_hollow(rest);
    let after = without_hollow(list);
    if i < rest.len() {
        lemma_hollow_dropped(rest, i);
        let k = choose|k: int| 0 <= k < before.len() && before[k] == list[i];
        assert(after[k] == list[i]);
    } else {
        assert(after[before.len() as int] == list[i]);
    }
}

/// Whether a message is a completed answer with this text.
pub open spec fn answers_with(m: MessageView, content: Seq<char>) -> bool {
    m.role == Role::Assistant && !m.is_tool() && m.complete && m.content == content
}

/// Draining an answer to its end, round by round until nothing changes any
/// more, loses, doubles and reorders nothing: whatever the pace, the growing
/// answer ends with all the tokens behind what it held before. It is complete,
/// and the stream is over. The tokens come in clusters that make them up again,
/// as every round finds.
pub proof fn draining_completes_the_answer(st: StreamView, events: Seq<EventView>, closed: bool)
    requires
        st.receiving,
        st.queue.len() == 0,
        st.pending_err is None,
        st.messages.len() > 0,
        st.messages.last().role == Role::Assistant,
        st.messages.last().is_open_text(),
        is_answer(events),
    ensures
        ({
            let content = st.messages.last().content + text_of_tokens(events);
            let end = drained_out(drained(st, events, closed).0);
            &&& !end.is_streaming && !end.pending_done && !end.receiving && end.queue.len() == 0
            &&& all_split_whole(events) ==> end.messages == without_hollow(
                completed(
                    attached(
                        with_content(st.messages, st.messages.len() - 1, content),
                        st.pending_items,
                        st.transient,
                    ),
                ),
            )
            &&& all_split_whole(events) && content.len() > 0 ==> exists|i: int|
                0 <= i < end.messages.len() && answers_with(#[trigger] end.messages[i], content)
        }),
{
    let after = received(st, events, closed).0;
    lemma_answer_received(st, events, closed);
    assert(st.queue + clusters_of(events) =~= clusters_of(events));
    lemma_drained_out(after, seq![], false);
    assert(drained(st, events, closed).0 == drained(after, seq![], false).0);
    let end = drained_out(drained(st, events, closed).0);
    assert(end == finalized(poured_out(after)));
    if all_split_whole(events) {
        lemma_whole_text(events);
        let at = st.messages.len() - 1;
        let content = st.messages[at].content + text_of_tokens(events);
        let poured = with_content(st.messages, at, content);
        assert(poured_out(after).messages =~= poured);
        if content.len() > 0 {
            let list = completed(attached(poured, st.pending_items, st.transient));
            assert(answers_with(list[at], content));
            lemma_hollow_dropped(list, at);
            assert(end.messages == without_hollow(list));
            let k = choose|k: int| 0 <= k < end.messages.len() && end.messages[k] == list[at];
            assert(answers_with(end.messages[k], content));
        }
    }
}

proof fn lemma_received(st: StreamView, events: Seq<EventView>, closed: bool)
    ensures
        received(st, events, closed).2 <= events.len(),
    decreases events.len(),
{
    if st.receiving && events.len() > 0 && !halts(events[0]) {
        lemma_received(applied(st, events[0]), events.drop_first(), closed);
    }
}

} // verus!
