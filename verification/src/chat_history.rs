//! What of a conversation is kept on disk, sent to the model, and exported.
use crate::chat_prompt::{
    ApiMessage, ApiView, AttachmentView, MessageAttachment, Skill, TerminalContext, add_message,
    attachment_views, build_visible_snapshot_message, format_user_message, message_views,
    opt_skill, push_waza_instruction, snapshot_message, user_message_text,
};
use crate::chat_stream::{Message, MessageView, Role, conversation, text_message, user_message};
use crate::json::{JsonValue, JsonView, json_views};
use crate::text::{
    chars_of, ends_with, lines, lines_of, opt_view, same, string_of_range, trim, trimmed, views,
};
use vstd::prelude::*;
use vstd::string::*;

verus! {

// ---------------------------------------------------------------------------
// On disk
// ---------------------------------------------------------------------------

/// A message as it is kept on disk.
#[derive(Debug)]
pub struct PersistedMessage {
    pub role: String,
    pub content: String,
    pub reasoning_content: String,
    pub responses_items: Vec<JsonValue>,
    pub attachments: Vec<MessageAttachment>,
    /// The round of question and answer it belongs to.
    pub round_id: u32,
}

pub struct PersistedView {
    pub role: Seq<char>,
    pub content: Seq<char>,
    pub reasoning_content: Seq<char>,
    pub responses_items: Seq<JsonView>,
    pub attachments: Seq<AttachmentView>,
    pub round_id: int,
}

impl View for PersistedMessage {
    type V = PersistedView;

    open spec fn view(&self) -> PersistedView {
        PersistedView {
            role: self.role@,
            content: self.content@,
            reasoning_content: self.reasoning_content@,
            responses_items: json_views(self.responses_items@),
            attachments: attachment_views(self.attachments@),
            round_id: self.round_id as int,
        }
    }
}

pub open spec fn persisted_views(list: Seq<PersistedMessage>) -> Seq<PersistedView> {
    list.map_values(|m: PersistedMessage| m@)
}

pub open spec fn role_text(role: Role) -> Seq<char> {
    match role {
        Role::User => "user"@,
        Role::Assistant => "assistant"@,
    }
}

/// A finished message of the conversation itself.
pub open spec fn is_kept(m: MessageView) -> bool {
    !m.is_context && !m.is_tool() && m.complete
}

/// The messages that are kept.
pub open spec fn kept(list: Seq<MessageView>) -> Seq<MessageView>
    decreases list.len(),
{
    if list.len() == 0 {
        seq![]
    } else if is_kept(list.last()) {
        kept(list.drop_last()).push(list.last())
    } else {
        kept(list.drop_last())
    }
}

/// The round of the message at `i`: a question behind an answer starts a new
/// one.
pub open spec fn round_of(list: Seq<MessageView>, i: int) -> int
    decreases i,
{
    if i <= 0 {
        0
    } else if list[i].role == Role::User && list[i - 1].role == Role::Assistant {
        round_of(list, i - 1) + 1
    } else {
        round_of(list, i - 1)
    }
}

pub open spec fn persisted_one(m: MessageView, round: int) -> PersistedView {
    PersistedView {
        role: role_text(m.role),
        content: m.content,
        reasoning_content: m.reasoning_content,
        responses_items: m.responses_items,
        attachments: m.attachments,
        round_id: round,
    }
}

/// The conversation as it is kept on disk.
pub open spec fn persisted(list: Seq<MessageView>) -> Seq<PersistedView> {
    let rest = kept(list);
    Seq::new(rest.len(), |i: int| persisted_one(rest[i], round_of(rest, i)))
}

proof fn lemma_round_prefix(list: Seq<MessageView>, more: MessageView, i: int)
    requires
        0 <= i < list.len(),
    ensures
        round_of(list.push(more), i) == round_of(list, i),
    decreases i,
{
    if i > 0 {
        lemma_round_prefix(list, more, i - 1);
    }
}

/// A copy of the items.
pub fn clone_items(items: &Vec<JsonValue>) -> (r: Vec<JsonValue>)
    ensures
        json_views(r@) == json_views(items@),
{
    let mut out: Vec<JsonValue> = Vec::new();
    let mut i: usize = 0;
    while i < items.len()
        invariant
            i <= items.len(),
            out.len() == i,
            forall|k: int| 0 <= k < i ==> (#[trigger] out@[k])@ == items@[k]@,
        decreases items.len() - i,
    {
        out.push(items[i].duplicate());
        i += 1;
    }
    assert(json_views(out@) =~= json_views(items@));
    out
}

/// A copy of the attachments.
pub fn clone_attachments(list: &Vec<MessageAttachment>) -> (r: Vec<MessageAttachment>)
    ensures
        attachment_views(r@) == attachment_views(list@),
{
    let mut out: Vec<MessageAttachment> = Vec::new();
    let mut i: usize = 0;
    while i < list.len()
        invariant
            i <= list.len(),
            out.len() == i,
            forall|k: int| 0 <= k < i ==> (#[trigger] out@[k])@ == list@[k]@,
        decreases list.len() - i,
    {
        out.push(list[i].duplicate());
        i += 1;
    }
    assert(attachment_views(out@) =~= attachment_views(list@));
    out
}

/// Collect real (non-context, non-tool, complete) messages for persistence.
pub fn collect_persisted_messages(messages: &Vec<Message>) -> (r: Vec<PersistedMessage>)
    requires
        messages.len() <= u32::MAX,
    ensures
        persisted_views(r@) == persisted(conversation(messages@)),
{
    let ghost all = conversation(messages@);
    let mut out: Vec<PersistedMessage> = Vec::new();
    let mut round: u32 = 0;
    let mut after_answer = false;
    let mut i: usize = 0;
    assert(persisted_views(out@) =~= persisted(all.take(0)));
    while i < messages.len()
        invariant
            i <= messages.len() <= u32::MAX,
            all == conversation(messages@),
            persisted_views(out@) == persisted(all.take(i as int)),
            ({
                let rest = kept(all.take(i as int));
                &&& rest.len() == out.len()
                &&& rest.len() == 0 ==> round == 0 && !after_answer
                &&& rest.len() > 0 ==> round == round_of(rest, rest.len() - 1) && after_answer == (
                rest.last().role == Role::Assistant)
            }),
            round <= out.len() <= i,
        decreases messages.len() - i,
    {
        proof {
            assert(all.take(i + 1).drop_last() =~= all.take(i as int));
            assert(all.take(i + 1).last() == messages@[i as int]@);
        }
        let m = &messages[i];
        if !m.is_context && !m.is_tool() && m.complete {
            let ghost rest = kept(all.take(i as int));
            let ghost next = rest.push(m@);
            let ghost before = persisted_views(out@);
            let is_user = m.role == Role::User;
            if is_user && after_answer {
                round += 1;
            }
            after_answer = !is_user;
            let role = if is_user {
                "user".to_owned()
            } else {
                "assistant".to_owned()
            };
            let entry = PersistedMessage {
                role,
                content: m.content.clone(),
                reasoning_content: m.reasoning_content.clone(),
                responses_items: clone_items(&m.responses_items),
                attachments: clone_attachments(&m.attachments),
                round_id: round,
            };
            proof {
                if rest.len() > 0 {
                    lemma_round_prefix(rest, m@, rest.len() - 1);
                    assert(next[rest.len() - 1] == rest.last());
                }
                assert(round == round_of(next, rest.len() as int));
                assert(entry@ == persisted_one(m@, round as int));
            }
            out.push(entry);
            proof {
                assert(kept(all.take(i + 1)) == next);
                let target = persisted(all.take(i + 1));
                assert(persisted_views(out@) =~= before.push(entry@));
                assert forall|k: int| 0 <= k < target.len() implies persisted_views(out@)[k]
                    == #[trigger] target[k] by {
                    if k < rest.len() {
                        lemma_round_prefix(rest, m@, k);
                        assert(before[k] == persisted(all.take(i as int))[k]);
                    }
                }
                assert(persisted_views(out@) =~= target);
            }
        }
        i += 1;
    }
    assert(all.take(i as int) =~= all);
    out
}

/// A message read back from disk: whatever is not the user's is an answer.
pub open spec fn restored_one(p: PersistedView) -> MessageView {
    if p.role == "user"@ {
        user_message(p.content, p.attachments)
    } else {
        MessageView {
            reasoning_content: p.reasoning_content,
            responses_items: p.responses_items,
            ..text_message(Role::Assistant, p.content, true, false)
        }
    }
}

/// The conversation read back from disk.
pub open spec fn restored(list: Seq<PersistedView>) -> Seq<MessageView> {
    list.map_values(|p: PersistedView| restored_one(p))
}

/// The messages of a conversation that was read from disk.
pub fn restore_messages(history: &Vec<PersistedMessage>) -> (r: Vec<Message>)
    ensures
        conversation(r@) == restored(persisted_views(history@)),
{
    let ghost all = persisted_views(history@);
    let mut out: Vec<Message> = Vec::new();
    let mut i: usize = 0;
    while i < history.len()
        invariant
            i <= history.len(),
            all == persisted_views(history@),
            out.len() == i,
            forall|k: int| 0 <= k < i ==> (#[trigger] out@[k])@ == restored_one(all[k]),
        decreases history.len() - i,
    {
        let p = &history[i];
        assert(all[i as int] == p@);
        let m = if same(p.role.as_str(), "user") {
            Message::user_text(p.content.as_str(), clone_attachments(&p.attachments))
        } else {
            let mut m = Message::text(Role::Assistant, p.content.as_str(), true, false);
            m.reasoning_content = p.reasoning_content.clone();
            m.responses_items = clone_items(&p.responses_items);
            m
        };
        assert(m@ == restored_one(all[i as int]));
        out.push(m);
        i += 1;
    }
    assert(conversation(out@) =~= restored(all));
    out
}

/// A message that has nothing but what is kept on disk.
pub open spec fn is_plain(m: MessageView) -> bool {
    &&& !m.tool_failed
    &&& m.tool_args is None
    &&& match m.role {
        Role::User => m.reasoning_content.len() == 0 && m.responses_items.len() == 0,
        Role::Assistant => m.attachments.len() == 0,
    }
}

/// A conversation that is written and read back is the conversation that was
/// written: every finished message, in order, and nothing else.
pub proof fn conversations_read_back(list: Seq<MessageView>)
    requires
        forall|i: int| 0 <= i < list.len() ==> is_plain(#[trigger] list[i]),
    ensures
        restored(persisted(list)) == kept(list),
{
    lemma_kept_members(list);
    let rest = kept(list);
    reveal_strlit("user");
    reveal_strlit("assistant");
    assert("user"@.len() != "assistant"@.len());
    assert forall|i: int| 0 <= i < rest.len() implies #[trigger] restored(persisted(list))[i]
        == rest[i] by {
        let m = rest[i];
        assert(is_kept(m) && is_plain(m));
        assert(restored(persisted(list))[i] == restored_one(persisted_one(m, round_of(rest, i))));
        match m.role {
            Role::User => {
                assert(m.reasoning_content =~= seq![]);
                assert(m.responses_items =~= seq![]);
            },
            Role::Assistant => {
                assert(m.attachments =~= seq![]);
            },
        }
    }
    assert(restored(persisted(list)) =~= rest);
}

proof fn lemma_kept_members(list: Seq<MessageView>)
    requires
        forall|i: int| 0 <= i < list.len() ==> is_plain(#[trigger] list[i]),
    ensures
        forall|i: int|
            0 <= i < kept(list).len() ==> is_kept(#[trigger] kept(list)[i]) && is_plain(
                kept(list)[i],
            ),
    decreases list.len(),
{
    if list.len() > 0 {
        let before = list.drop_last();
        assert forall|i: int| 0 <= i < before.len() implies is_plain(#[trigger] before[i]) by {
            assert(before[i] == list[i]);
        }
        lemma_kept_members(before);
        assert(is_plain(list[list.len() - 1]));
        assert forall|i: int| 0 <= i < kept(list).len() implies is_kept(#[trigger] kept(list)[i])
            && is_plain(kept(list)[i]) by {
            if i < kept(before).len() {
                assert(kept(list)[i] == kept(before)[i]);
            }
        }
    }
}

/// The rounds of a conversation never go back, and go on by one at most.
pub proof fn rounds_follow_each_other(list: Seq<MessageView>, i: int)
    requires
        0 < i < persisted(list).len(),
    ensures
        persisted(list)[i - 1].round_id <= persisted(list)[i].round_id
            <= persisted(list)[i - 1].round_id + 1,
        persisted(list)[0].round_id == 0,
{
}

// ---------------------------------------------------------------------------
// To the model
// ---------------------------------------------------------------------------

/// A text message of the conversation itself.
pub open spec fn is_real(m: MessageView) -> bool {
    !m.is_context && !m.is_tool()
}

/// Only text messages (no tool events) count toward history.
pub open spec fn real_messages(list: Seq<MessageView>) -> Seq<MessageView>
    decreases list.len(),
{
    if list.len() == 0 {
        seq![]
    } else if is_real(list.last()) {
        real_messages(list.drop_last()).push(list.last())
    } else {
        real_messages(list.drop_last())
    }
}

/// What is sent of a message.
pub open spec fn sent_of(m: MessageView, responses: bool, reasoning: bool) -> Seq<ApiView> {
    match m.role {
        Role::User => seq![ApiView::User(user_message_text(m.content, m.attachments))],
        Role::Assistant => if !m.complete {
            seq![]
        } else if responses && m.responses_items.len() > 0 {
            m.responses_items.map_values(|item: JsonView| ApiView::ResponsesItem(item))
        } else if reasoning {
            seq![
                ApiView::AssistantWithReasoning {
                    content: m.content,
                    reasoning: m.reasoning_content,
                },
            ]
        } else {
            seq![ApiView::Assistant(m.content)]
        },
    }
}

/// What is sent of some messages.
pub open spec fn sent_of_all(list: Seq<MessageView>, responses: bool, reasoning: bool) -> Seq<
    ApiView,
>
    decreases list.len(),
{
    if list.len() == 0 {
        seq![]
    } else {
        sent_of_all(list.drop_last(), responses, reasoning) + sent_of(
            list.last(),
            responses,
            reasoning,
        )
    }
}

/// The last `n` of a list.
pub open spec fn last_of(list: Seq<MessageView>, n: nat) -> Seq<MessageView> {
    if list.len() <= n {
        list
    } else {
        list.skip(list.len() - n)
    }
}

/// What is sent before the conversation.
pub open spec fn sent_first(
    system_prompt: Seq<char>,
    skill: Option<Skill>,
    environment: Seq<char>,
    context: TerminalContext,
) -> Seq<ApiView> {
    let head = seq![ApiView::System(system_prompt)];
    let told = match skill {
        Some(s) => head.push(ApiView::System(s.instruction@)),
        None => head,
    };
    let placed = told.push(ApiView::User(environment));
    match snapshot_message(context) {
        Some(text) => placed.push(ApiView::User(text)),
        None => placed,
    }
}

/// A request to the model, apart from its tools.
pub open spec fn request_messages(
    prompt: PromptParts,
    skill: Option<Skill>,
    context: TerminalContext,
    messages: Seq<MessageView>,
) -> Seq<ApiView> {
    sent_first(prompt.system_prompt@, skill, prompt.environment@, context) + sent_of_all(
        last_of(real_messages(messages), (2 * prompt.max_history_pairs) as nat),
        prompt.responses_mode,
        prompt.reasoning_roundtrip,
    )
}

/// What the assistant's configuration contributes to a request.
#[derive(Debug)]
pub struct PromptParts {
    pub system_prompt: String,
    /// Dynamic fields (date, cwd, locale) go into a separate user message so
    /// the static system prompt can hit a prompt-cache discount.
    pub environment: String,
    /// How many rounds of the conversation the model is shown.
    pub max_history_pairs: usize,
    /// Whether the API takes the raw transcript of earlier answers.
    pub responses_mode: bool,
    /// Whether the model wants its reasoning back.
    pub reasoning_roundtrip: bool,
}

fn send_one(out: &mut Vec<ApiMessage>, m: &Message, responses: bool, reasoning: bool)
    ensures
        message_views(final(out)@) == message_views(old(out)@) + sent_of(m@, responses, reasoning),
{
    let ghost before = message_views(out@);
    let ghost target = sent_of(m@, responses, reasoning);
    assert(json_views(m.responses_items@).len() == m.responses_items@.len());
    if m.role == Role::User {
        add_message(
            out,
            ApiMessage::User(format_user_message(m.content.as_str(), &m.attachments)),
        );
        assert(message_views(out@) =~= before + target);
    } else if m.complete {
        if responses && m.responses_items.len() > 0 {
            let mut i: usize = 0;
            assert(before + target.take(0) =~= before);
            while i < m.responses_items.len()
                invariant
                    i <= m.responses_items.len(),
                    target == json_views(m.responses_items@).map_values(
                        |item: JsonView| ApiView::ResponsesItem(item),
                    ),
                    message_views(out@) == before + target.take(i as int),
                decreases m.responses_items.len() - i,
            {
                assert(json_views(m.responses_items@)[i as int] == m.responses_items@[i as int]@);
                add_message(out, ApiMessage::ResponsesItem(m.responses_items[i].duplicate()));
                assert(before + target.take(i + 1) =~= (before + target.take(i as int)).push(
                    target[i as int],
                ));
                i += 1;
            }
            assert(target.take(i as int) =~= target);
        } else if reasoning {
            add_message(
                out,
                ApiMessage::AssistantWithReasoning {
                    content: m.content.clone(),
                    reasoning: m.reasoning_content.clone(),
                },
            );
            assert(message_views(out@) =~= before + target);
        } else {
            add_message(out, ApiMessage::Assistant(m.content.clone()));
            assert(message_views(out@) =~= before + target);
        }
    } else {
        assert(before + target =~= before);
    }
}

/// The number of text messages of the conversation itself.
fn count_real(messages: &Vec<Message>) -> (r: usize)
    ensures
        r == real_messages(conversation(messages@)).len(),
{
    let ghost all = conversation(messages@);
    let mut n: usize = 0;
    let mut i: usize = 0;
    assert(all.take(0) =~= seq![]);
    while i < messages.len()
        invariant
            n <= i <= messages.len(),
            all == conversation(messages@),
            n == real_messages(all.take(i as int)).len(),
        decreases messages.len() - i,
    {
        assert(all.take(i + 1).drop_last() =~= all.take(i as int));
        assert(all.take(i + 1).last() == messages@[i as int]@);
        if !messages[i].is_context && !messages[i].is_tool() {
            n += 1;
        }
        i += 1;
    }
    assert(all.take(i as int) =~= all);
    n
}

proof fn lemma_real_prefix(list: Seq<MessageView>, i: int)
    requires
        0 <= i <= list.len(),
    ensures
        real_messages(list.take(i)).is_prefix_of(real_messages(list)),
    decreases list.len() - i,
{
    if i < list.len() {
        lemma_real_prefix(list, i + 1);
        assert(list.take(i + 1).drop_last() =~= list.take(i));
        let a = real_messages(list.take(i));
        let b = real_messages(list.take(i + 1));
        let c = real_messages(list);
        assert(a =~= b.take(a.len() as int));
        assert(b =~= c.take(b.len() as int));
        assert(a =~= c.take(a.len() as int));
    } else {
        assert(list.take(i) =~= list);
    }
}

/// The messages of a request: the system prompt, the instruction of an active
/// skill, the environment, what the terminal shows, and the recent rounds of
/// the conversation.
pub fn build_api_messages(
    prompt: &PromptParts,
    skill: Option<&Skill>,
    context: &TerminalContext,
    messages: &Vec<Message>,
) -> (r: Vec<ApiMessage>)
    requires
        prompt.max_history_pairs <= usize::MAX / 2,
    ensures
        message_views(r@) == request_messages(
            *prompt,
            opt_skill(skill),
            *context,
            conversation(messages@),
        ),
{
    let ghost all = conversation(messages@);
    let mut out: Vec<ApiMessage> = Vec::new();
    assert(message_views(out@) =~= seq![]);
    add_message(&mut out, ApiMessage::System(prompt.system_prompt.clone()));
    assert(message_views(out@) =~= seq![ApiView::System(prompt.system_prompt@)]);
    push_waza_instruction(&mut out, skill);
    add_message(&mut out, ApiMessage::User(prompt.environment.clone()));
    if let Some(m) = build_visible_snapshot_message(context) {
        add_message(&mut out, m);
    }
    let ghost first = message_views(out@);
    let total: usize = count_real(messages);
    let cap: usize = prompt.max_history_pairs * 2;
    let skip: usize = if total <= cap {
        0
    } else {
        total - cap
    };
    let ghost turns = real_messages(all);
    let ghost shown = last_of(turns, cap as nat);
    assert(turns.skip(0) =~= turns);
    assert(shown =~= turns.skip(skip as int));
    let mut seen: usize = 0;
    let mut i: usize = 0;
    assert(all.take(0) =~= seq![]);
    assert(shown.take(0) =~= seq![]);
    assert(first + seq![] =~= first);
    while i < messages.len()
        invariant
            i <= messages.len(),
            seen <= i,
            skip <= total,
            all == conversation(messages@),
            turns == real_messages(all),
            total == turns.len(),
            shown == turns.skip(skip as int),
            seen == real_messages(all.take(i as int)).len(),
            message_views(out@) == first + sent_of_all(
                shown.take(
                    if seen <= skip {
                        0
                    } else {
                        seen - skip
                    },
                ),
                prompt.responses_mode,
                prompt.reasoning_roundtrip,
            ),
        decreases messages.len() - i,
    {
        proof {
            assert(all.take(i + 1).drop_last() =~= all.take(i as int));
            assert(all.take(i + 1).last() == messages@[i as int]@);
            lemma_real_prefix(all, i + 1);
        }
        let m = &messages[i];
        if !m.is_context && !m.is_tool() {
            proof {
                let upto = real_messages(all.take(i + 1));
                assert(upto.last() == m@);
                assert(upto[seen as int] == turns[seen as int]);
                if seen >= skip {
                    let at = seen - skip;
                    assert(shown[at] == m@);
                    assert(shown.take(at + 1).drop_last() =~= shown.take(at));
                    assert(shown.take(at + 1).last() == m@);
                }
            }
            if seen >= skip {
                let ghost so_far = sent_of_all(
                    shown.take(seen - skip),
                    prompt.responses_mode,
                    prompt.reasoning_roundtrip,
                );
                let ghost more = sent_of(m@, prompt.responses_mode, prompt.reasoning_roundtrip);
                send_one(&mut out, m, prompt.responses_mode, prompt.reasoning_roundtrip);
                assert((first + so_far) + more =~= first + (so_far + more));
            }
            seen += 1;
        }
        i += 1;
    }
    proof {
        assert(all.take(i as int) =~= all);
        assert(shown.take(shown.len() as int) =~= shown);
    }
    out
}

/// Neither a note of the chat itself, nor a tool call, nor a side question is
/// sent with a later request: only the real messages decide.
pub proof fn requests_ignore_context_messages(
    prompt: PromptParts,
    skill: Option<Skill>,
    context: TerminalContext,
    messages: Seq<MessageView>,
    note: MessageView,
)
    requires
        note.is_context || note.is_tool(),
    ensures
        request_messages(prompt, skill, context, messages.push(note)) == request_messages(
            prompt,
            skill,
            context,
            messages,
        ),
        persisted(messages.push(note)) == persisted(messages),
{
    assert(messages.push(note).drop_last() =~= messages);
    assert(persisted(messages.push(note)) =~= persisted(messages));
}

/// The first thing the user said, from which the assistant learns about them.
pub open spec fn first_words(list: Seq<MessageView>) -> Option<Seq<char>>
    decreases list.len(),
{
    if list.len() == 0 {
        None
    } else if list[0].role == Role::User && !list[0].is_context && list[0].content.len() > 0 {
        Some(list[0].content)
    } else {
        first_words(list.drop_first())
    }
}

pub fn bootstrap_reply(messages: &Vec<Message>) -> (r: Option<String>)
    ensures
        opt_view(r) == first_words(conversation(messages@)),
{
    let ghost all = conversation(messages@);
    let mut i: usize = 0;
    assert(all.skip(0) =~= all);
    while i < messages.len()
        invariant
            i <= messages.len(),
            all == conversation(messages@),
            first_words(all) == first_words(all.skip(i as int)),
        decreases messages.len() - i,
    {
        assert(all.skip(i as int)[0] == messages@[i as int]@);
        assert(all.skip(i as int).drop_first() =~= all.skip(i + 1));
        let m = &messages[i];
        if m.role == Role::User && !m.is_context && !m.content.as_str().is_empty() {
            return Some(m.content.clone());
        }
        i += 1;
    }
    None
}

// ---------------------------------------------------------------------------
// To the clipboard
// ---------------------------------------------------------------------------

pub open spec fn divider() -> Seq<char> {
    "\n\n---\n\n"@
}

/// The exported text of some messages.
pub open spec fn exported(list: Seq<PersistedView>) -> Seq<char>
    decreases list.len(),
{
    if list.len() == 0 {
        seq![]
    } else {
        let m = list.last();
        exported(list.drop_last()) + (if m.role == "user"@ {
            "**User**"@
        } else {
            "**Assistant**"@
        }) + "\n\n"@ + m.content + divider()
    }
}

/// The text without any number of copies of `p` at its end.
pub open spec fn without_ends(s: Seq<char>, p: Seq<char>) -> Seq<char>
    decreases s.len(),
{
    if p.len() > 0 && p.is_suffix_of(s) {
        without_ends(s.take(s.len() - p.len()), p)
    } else {
        s
    }
}

/// The text without any number of copies of `p` at its end.
pub fn trim_end_text(s: &str, p: &str) -> (r: String)
    requires
        p@.len() > 0,
    ensures
        r@ == without_ends(s@, p@),
{
    let n: usize = p.unicode_len();
    let mut out: String = s.to_owned();
    let mut left: usize = out.as_str().unicode_len();
    while ends_with(out.as_str(), p)
        invariant
            n == p@.len() && n > 0,
            left == out@.len(),
            without_ends(out@, p@) == without_ends(s@, p@),
        decreases left,
    {
        assert(p@.len() <= out@.len());
        let cs = chars_of(out.as_str());
        left = cs.len() - n;
        assert(cs@.subrange(0, left as int) =~= cs@.take(left as int));
        out = string_of_range(&cs, 0, left);
    }
    out
}

/// What `/export` puts on the clipboard.
pub fn export_text(list: &Vec<PersistedMessage>) -> (r: String)
    ensures
        r@ == without_ends(exported(persisted_views(list@)), divider()),
{
    let ghost all = persisted_views(list@);
    let mut out = String::new();
    let mut i: usize = 0;
    assert(all.take(0) =~= seq![]);
    assert(out@ =~= seq![]);
    while i < list.len()
        invariant
            i <= list.len(),
            all == persisted_views(list@),
            out@ == exported(all.take(i as int)),
        decreases list.len() - i,
    {
        assert(all.take(i + 1).drop_last() =~= all.take(i as int));
        assert(all.take(i + 1).last() == list@[i as int]@);
        if same(list[i].role.as_str(), "user") {
            out.append("**User**");
        } else {
            out.append("**Assistant**");
        }
        out.append("\n\n");
        out.append(list[i].content.as_str());
        out.append("\n\n---\n\n");
        i += 1;
    }
    assert(all.take(i as int) =~= all);
    proof {
        reveal_strlit("\n\n---\n\n");
    }
    trim_end_text(out.as_str(), "\n\n---\n\n")
}

/// The lines of the memory file that hold an entry.
pub open spec fn memory_entries(text: Seq<char>) -> nat {
    entry_count(lines_of(text))
}

pub open spec fn entry_count(list: Seq<Seq<char>>) -> nat
    decreases list.len(),
{
    if list.len() == 0 {
        0
    } else {
        entry_count(list.drop_last()) + (if starts_entry(list.last()) {
            1nat
        } else {
            0nat
        })
    }
}

pub open spec fn starts_entry(line: Seq<char>) -> bool {
    trimmed(line).len() > 0 && trimmed(line)[0] == '-'
}

pub fn count_memory_entries(text: &str) -> (r: usize)
    ensures
        r == memory_entries(text@),
{
    let all = lines(text);
    let ghost views_all = views(all@);
    let mut n: usize = 0;
    let mut i: usize = 0;
    assert(views_all.take(0) =~= seq![]);
    while i < all.len()
        invariant
            n <= i <= all.len(),
            views_all == views(all@),
            n == entry_count(views_all.take(i as int)),
        decreases all.len() - i,
    {
        assert(views_all.take(i + 1).drop_last() =~= views_all.take(i as int));
        assert(views_all.take(i + 1).last() == all@[i as int]@);
        let cs = chars_of(trim(all[i].as_str()).as_str());
        if cs.len() > 0 && cs[0] == '-' {
            n += 1;
        }
        i += 1;
    }
    assert(views_all.take(i as int) =~= views_all);
    n
}

} // verus!
