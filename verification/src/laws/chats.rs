//! The chat: what submitting a line does, how conversations are left and
//! resumed, and what the notes of the chat say.
use crate::chat_app::{
    AppView, CommandView, MetaView, OverlayEvent, SkillRequest, SubmittedView, Surroundings,
    after_event, begun, closed_chat, command_of_input, first_messages, informed, is_busy,
    is_loading, other_conversations, outgoing_of, questions, resumed, settled, side_asked,
    side_request, spinner_text, status_text, submitted, with_room,
};
use crate::chat_history::{PersistedView, persisted, real_messages, request_messages, restored};
use crate::chat_input::pasted;
use crate::chat_models::current_of;
use crate::chat_prompt::{ApiView, AttachmentView, resolved_input, user_message_text};
use crate::chat_stream::{MessageView, Role, last_open_text};
use crate::laws::prompts::{recent_rounds_are_told, told_of};
use crate::laws::streaming::grows_at;
use crate::laws::{holds, lemma_stands_between, stands_at};
use crate::text::{decimal, trimmed};
use vstd::prelude::*;
use vstd::string::*;

verus! {

// ---------------------------------------------------------------------------
// Submitting
// ---------------------------------------------------------------------------

/// A blank line is ignored, and changes nothing.
pub proof fn blank_lines_are_ignored(
    app: AppView,
    skill: Option<SkillRequest>,
    around: Surroundings,
)
    requires
        trimmed(app.line.input).len() == 0,
    ensures
        submitted(app, skill, around) == (app, SubmittedView::Ignored),
{
}

/// Each command goes by its name, with what stands behind it; whatever is no
/// command is a question.
pub proof fn commands_go_by_name(raw: Seq<char>, rest: Seq<char>)
    ensures
        command_of_input("/new"@) is New,
        command_of_input("/resume"@) is Resume,
        command_of_input("/clear"@) is Clear,
        command_of_input("/export"@) is Export,
        command_of_input("/memory"@) is Memory,
        command_of_input("/status"@) is Status,
        command_of_input("/suggest"@) is Suggest,
        command_of_input("/config"@) is Config,
        command_of_input("/model"@) == CommandView::Model(None),
        trimmed(rest).len() > 0 ==> command_of_input("/btw "@ + rest) == CommandView::Btw(
            trimmed(rest),
        ),
        raw.len() > 0 && raw[0] != '/' ==> command_of_input(raw) is Talk,
{
    reveal_strlit("/new");
    reveal_strlit("/resume");
    reveal_strlit("/clear");
    reveal_strlit("/export");
    reveal_strlit("/memory");
    reveal_strlit("/status");
    reveal_strlit("/suggest");
    reveal_strlit("/config");
    reveal_strlit("/model");
    reveal_strlit("/model ");
    reveal_strlit("/btw ");
    assert("/new"@[1] == 'n' && "/resume"@[1] == 'r' && "/clear"@[1] == 'c' && "/clear"@[2] == 'l'
        && "/export"@[1] == 'e' && "/memory"@[1] == 'm' && "/memory"@[2] == 'e' && "/status"@[1]
        == 's' && "/status"@[2] == 't' && "/suggest"@[1] == 's' && "/suggest"@[2] == 'u'
        && "/config"@[1] == 'c' && "/config"@[2] == 'o' && "/model"@[1] == 'm' && "/model"@[2]
        == 'o' && "/btw "@[1] == 'b');
    assert("/new"@[0] == '/' && "/resume"@[0] == '/' && "/clear"@[0] == '/' && "/export"@[0] == '/'
        && "/memory"@[0] == '/' && "/status"@[0] == '/' && "/suggest"@[0] == '/' && "/config"@[0]
        == '/' && "/model"@[0] == '/');
    let b = "/btw "@ + rest;
    assert(b[1] == 'b' && b[0] == '/');
    assert(b.skip(5) =~= rest);
    assert(b.subrange(0, 5) =~= "/btw "@);
    if "/model "@.is_prefix_of(b) {
        assert(b.subrange(0, 7)[1] == b[1]);
        assert("/model "@[1] == 'm');
    }
    if "/model "@.is_prefix_of(raw) {
        assert(raw.subrange(0, 7)[0] == raw[0]);
    }
    if "/btw "@.is_prefix_of(raw) {
        assert(raw.subrange(0, 5)[0] == raw[0]);
    }
    let m = "/model"@;
    assert(m.skip(6) =~= seq![]);
    assert(trimmed(Seq::<char>::empty()) =~= seq![]);
}

/// A command empties the line and leaves the conversation to itself.
pub proof fn commands_leave_the_conversation(
    app: AppView,
    skill: Option<SkillRequest>,
    around: Surroundings,
)
    requires
        submitted(app, skill, around).1 is Command,
    ensures
        ({
            let (after, what) = submitted(app, skill, around);
            &&& after.stream == app.stream
            &&& after.line.input.len() == 0 && after.line.cursor == 0
            &&& after.line.undo == app.line.undo
            &&& what == SubmittedView::Command(command_of_input(trimmed(app.line.input)))
        }),
{
}

/// What is refused is said in a note at the end of the chat; the line stays to
/// be mended.
pub proof fn refusals_are_explained(
    app: AppView,
    skill: Option<SkillRequest>,
    around: Surroundings,
)
    requires
        submitted(app, skill, around).1 is Refused,
    ensures
        ({
            let after = submitted(app, skill, around).0;
            let raw = trimmed(app.line.input);
            &&& after.line == app.line
            &&& after.stream.messages.drop_last() == app.stream.messages
            &&& after.stream.messages.last().is_context
            &&& after.stream.messages.last().complete
            &&& skill is None ==> resolved_input(raw, around.context, around.facts) == Err::<
                (Seq<char>, Seq<AttachmentView>),
                Seq<char>,
            >(after.stream.messages.last().content)
        }),
{
    let after = submitted(app, skill, around).0;
    assert(after.stream.messages.drop_last() =~= app.stream.messages);
}

/// A question joins the conversation as the words of the user, with what they
/// attached; only the oldest messages give way where the chat is full. An answer
/// is awaited from the model that is chosen, and the line is empty.
pub proof fn questions_join_the_conversation(
    app: AppView,
    around: Surroundings,
    question: Seq<char>,
    attachments: Seq<AttachmentView>,
)
    requires
        trimmed(app.line.input).len() > 0,
        command_of_input(trimmed(app.line.input)) is Talk,
        resolved_input(trimmed(app.line.input), around.context, around.facts) == Ok::<
            (Seq<char>, Seq<AttachmentView>),
            Seq<char>,
        >((question, attachments)),
    ensures
        ({
            let (after, what) = submitted(app, None, around);
            let last = after.stream.messages.last();
            &&& after.stream.messages.len() > 0
            &&& last.role == Role::User && last.content == question
            &&& last.attachments == attachments
            &&& last.complete && !last.is_context && last.tool_name is None
            &&& after.stream.messages.drop_last().is_suffix_of(app.stream.messages)
            &&& app.stream.messages.len() < 300 ==> after.stream.messages.drop_last()
                == app.stream.messages
            &&& after.stream.is_streaming && after.stream.receiving
            &&& after.stream.queue.len() == 0
            &&& after.line.input.len() == 0
            &&& what matches SubmittedView::Asked(r) && r.model == current_of(app.models)
        }),
{
    let (after, what) = submitted(app, None, around);
    rooms_keep_the_latest(app.stream.messages);
    let kept = with_room(app.stream.messages);
    assert(after.stream.messages.drop_last() =~= kept);
}

/// Room is made by dropping the oldest messages alone, and as few as will do.
pub proof fn rooms_keep_the_latest(list: Seq<MessageView>)
    ensures
        with_room(list).is_suffix_of(list),
        list.len() < 300 ==> with_room(list) == list,
        list.len() >= 300 ==> with_room(list).len() == 299,
{
    let kept = with_room(list);
    assert(list.subrange(list.len() - kept.len(), list.len() as int) =~= kept);
}

/// The question is told to the model with the request, whole and with all that
/// was attached, wherever any of the conversation is told.
pub proof fn questions_reach_the_model(
    app: AppView,
    around: Surroundings,
    question: Seq<char>,
    attachments: Seq<AttachmentView>,
)
    requires
        trimmed(app.line.input).len() > 0,
        command_of_input(trimmed(app.line.input)) is Talk,
        around.prompt.max_history_pairs > 0,
        resolved_input(trimmed(app.line.input), around.context, around.facts) == Ok::<
            (Seq<char>, Seq<AttachmentView>),
            Seq<char>,
        >((question, attachments)),
    ensures
        submitted(app, None, around).1 matches SubmittedView::Asked(r) && r.messages.contains(
            ApiView::User(user_message_text(question, attachments)),
        ),
{
    questions_join_the_conversation(app, around, question, attachments);
    let (after, what) = submitted(app, None, around);
    let list = after.stream.messages;
    let m = list.last();
    let told = real_messages(list);
    assert(told.last() == m);
    recent_rounds_are_told(around.prompt, None, around.context, list, told.len() - 1);
    let request = request_messages(around.prompt, None, around.context, list);
    let k = choose|k: int|
        0 <= k < request.len() && told_of(
            real_messages(list)[told.len() - 1],
            around.prompt,
            #[trigger] request[k],
        );
    assert(request[k] == ApiView::User(user_message_text(question, attachments)));
    assert(what->Asked_0.messages == request);
}

/// A side question is put to the model last, behind the conversation; it is
/// shown, but marked as no part of it, and no tool is offered with it.
pub proof fn side_questions_are_put_last(
    app: AppView,
    question: Seq<char>,
    around: Surroundings,
)
    ensures
        ({
            let request = side_request(app, question, around);
            &&& request.messages.len() > 0
            &&& request.messages.last() matches ApiView::User(text) && question.is_suffix_of(text)
            &&& request.tools.len() == 0
            &&& request.model == current_of(app.models)
        }),
        ({
            let after = side_asked(app, question);
            let last = after.stream.messages.last();
            &&& after.stream.messages.drop_last() == app.stream.messages
            &&& last.is_context && last.role == Role::User && question.is_suffix_of(last.content)
            &&& after.line == app.line
            &&& after.stream.is_streaming
        }),
{
    let request = side_request(app, question, around);
    let head = "[/btw side-question: answer inline, do not store in history]: "@;
    let text = head + question;
    assert(text.subrange(text.len() - question.len(), text.len() as int) =~= question);
    let after = side_asked(app, question);
    assert(after.stream.messages.drop_last() =~= app.stream.messages);
    let shown = "/btw "@ + question;
    assert(shown.subrange(shown.len() - question.len(), shown.len() as int) =~= question);
}

// ---------------------------------------------------------------------------
// Conversations
// ---------------------------------------------------------------------------

/// Leaving a conversation hands out every message that is kept of it, under its
/// own name; one that holds nothing is not handed out.
pub proof fn conversations_are_left_whole(app: AppView)
    ensures
        match outgoing_of(app) {
            Some(out) => out.id == app.active_id && out.messages == persisted(app.stream.messages)
                && out.messages.len() > 0,
            None => persisted(app.stream.messages).len() == 0,
        },
        settled(app).stream.messages == app.stream.messages,
        !settled(app).stream.is_streaming,
{
}

/// A fresh conversation holds nothing of the old one; it has its own name where
/// one could be made.
pub proof fn fresh_conversations_are_empty(app: AppView, id: Seq<char>)
    ensures
        persisted(begun(app, Some(id)).stream.messages).len() == 0,
        real_messages(begun(app, Some(id)).stream.messages).len() == 0,
        begun(app, Some(id)).active_id == id,
        begun(app, None).active_id == app.active_id,
        begun(app, Some(id)).line == app.line,
{
    let list = begun(app, Some(id)).stream.messages;
    assert(list.len() == 1);
    assert(list.drop_last() =~= seq![]);
    reveal_with_fuel(real_messages, 2);
    reveal_with_fuel(crate::chat_history::kept, 2);
}

/// A conversation that is resumed is shown as it was kept, message by message,
/// and goes on under its own name; one that cannot be read changes neither.
pub proof fn resumed_conversations_are_shown(
    app: AppView,
    meta: MetaView,
    history: Seq<PersistedView>,
    i: int,
)
    ensures
        ({
            let after = resumed(app, meta, Some(history));
            &&& after.active_id == meta.id
            &&& after.stream.messages.len() >= history.len()
            &&& 0 <= i < history.len() ==> after.stream.messages[i].content == history[i].content
                && (after.stream.messages[i].role == Role::User <==> history[i].role == "user"@)
                && after.stream.messages[i].complete && !after.stream.messages[i].is_context
            &&& history.len() <= i < after.stream.messages.len()
                ==> after.stream.messages[i].is_context
            &&& after.stream.messages.last().content == "Resumed: "@ + meta.summary
            &&& after.stream.messages.len() == history.len() + if history.len() > 0 {
                2nat
            } else {
                1nat
            }
            &&& after.scroll_offset == 0 && after.dirty
        }),
        ({
            let after = resumed(app, meta, None);
            after.active_id == app.active_id && after.stream == app.stream
        }),
{
    let back = restored(history);
    assert(back.len() == history.len());
}

/// The conversations to choose from are all but the current one, in order.
pub proof fn other_conversations_are_offered(list: Seq<MetaView>, active: Seq<char>)
    ensures
        other_conversations(list, active) == list.filter(|m: MetaView| m.id != active),
    decreases list.len(),
{
    reveal(Seq::filter);
    if list.len() > 0 {
        other_conversations_are_offered(list.drop_last(), active);
    }
}

/// A chat opens with the conversation that was kept; only a new user without one
/// is greeted.
pub proof fn chats_open_with_what_was_kept(history: Seq<PersistedView>, new_user: bool, i: int)
    ensures
        history.len() > 0 || !new_user ==> first_messages(history, new_user).len()
            == history.len(),
        history.len() == 0 && new_user ==> first_messages(history, new_user).len() == 1
            && first_messages(history, new_user)[0].role == Role::Assistant,
        0 <= i < history.len() ==> first_messages(history, new_user)[i].content
            == history[i].content,
{
}

/// A chat that is closed in the middle of an answer keeps the words that came.
pub proof fn closing_keeps_the_words(app: AppView, at: int)
    requires
        app.stream.is_streaming,
        grows_at(app.stream.messages, at),
    ensures
        ({
            let after = closed_chat(app);
            &&& after.stream.messages.len() == app.stream.messages.len()
            &&& after.stream.messages[at].complete
            &&& after.stream.messages[at].content == app.stream.messages[at].content
            &&& after.stream.messages[at].reasoning_content
                == app.stream.messages[at].reasoning_content
            &&& forall|k: int|
                0 <= k < app.stream.messages.len() && k != at
                    ==> #[trigger] after.stream.messages[k] == app.stream.messages[k]
        }),
{
    lemma_grows_here(app.stream.messages, at);
}

proof fn lemma_grows_here(list: Seq<MessageView>, at: int)
    requires
        grows_at(list, at),
    ensures
        last_open_text(list) == at,
    decreases list.len(),
{
    if at < list.len() - 1 {
        let rest = list.drop_last();
        assert(list[list.len() - 1] == list.last());
        assert forall|k: int| at < k < rest.len() implies (#[trigger] rest[k]).tool_name is Some
            || rest[k].complete by {
            assert(rest[k] == list[k]);
        }
        lemma_grows_here(rest, at);
    }
}

// ---------------------------------------------------------------------------
// Events and notes
// ---------------------------------------------------------------------------

/// What is pasted stands at the cursor, which moves behind it, and can be undone;
/// a new size is taken over; a key that does not quit, the mouse and other events
/// are left to others.
pub proof fn events_change_what_they_are_about(
    app: AppView,
    text: String,
    cols: usize,
    rows: usize,
)
    requires
        app.line.cursor <= app.line.input.len(),
        app.line.input.len() + pasted(text@).len() <= usize::MAX,
    ensures
        ({
            let after = after_event(app, OverlayEvent::Paste(text));
            &&& stands_at(after.line.input, pasted(text@), app.line.cursor as int)
            &&& after.line.cursor == app.line.cursor + pasted(text@).len()
            &&& after.line.input.len() == app.line.input.len() + pasted(text@).len()
            &&& pasted(text@).len() > 0 && app.line.input.len() > 0 ==> after.line.undo.len() > 0
                && after.line.undo.last() == (app.line.input, app.line.cursor)
            &&& after.stream == app.stream
        }),
        ({
            let after = after_event(app, OverlayEvent::Resized { cols, rows });
            after.cols == cols && after.rows == rows && after.dirty && after.line == app.line
                && after.stream == app.stream
        }),
        after_event(app, OverlayEvent::Mouse) == app,
        after_event(app, OverlayEvent::Other) == app,
        after_event(app, OverlayEvent::Key { quits: false }) == app,
{
    let p = pasted(text@);
    let at = app.line.cursor as int;
    let after = after_event(app, OverlayEvent::Paste(text));
    if p.len() > 0 {
        assert(after.line.input.subrange(at, at + p.len()) =~= p);
    } else {
        assert(after.line.input.subrange(at, at) =~= p);
    }
}

/// The chat looks often for news while anything is under way, and seldom else;
/// the spinner turns one frame for each interval that passed, through four
/// frames.
pub proof fn the_spinner_turns(app: AppView, frame: usize, elapsed: nat)
    ensures
        app.stream.is_streaming ==> is_busy(app) && is_loading(app),
        app.stream.queue.len() > 0 ==> is_busy(app),
        app.stream.pending_done ==> is_busy(app),
        app.stream.pending_approval is Some ==> is_busy(app) && is_loading(app),
        app.models.fetch is Loading ==> is_busy(app) && is_loading(app),
        app.awaits_suggestion ==> is_busy(app),
        app.flash is Some ==> is_busy(app),
        !app.stream.is_streaming && app.stream.queue.len() == 0 && !app.stream.pending_done
            && app.stream.pending_approval is None && !(app.models.fetch is Loading)
            && !app.awaits_suggestion && app.flash is None ==> !is_busy(app),
        frame < usize::MAX - 4 ==> spinner_text((frame + 4) as usize) == spinner_text(frame),
        spinner_text(0) != spinner_text(1) && spinner_text(1) != spinner_text(2) && spinner_text(2)
            != spinner_text(3),
{
    reveal_strlit("✦");
    reveal_strlit("✶");
    reveal_strlit("✸");
    reveal_strlit("✷");
    assert("✦"@[0] != "✶"@[0] && "✶"@[0] != "✸"@[0] && "✸"@[0] != "✷"@[0]);
}

/// The number of questions in a conversation is the number of messages of its
/// own that the user wrote.
pub proof fn questions_are_counted(list: Seq<MessageView>)
    ensures
        questions(list) == list.filter(
            |m: MessageView| !m.is_context && m.tool_name is None && m.role == Role::User,
        ).len(),
    decreases list.len(),
{
    reveal(Seq::filter);
    if list.len() > 0 {
        questions_are_counted(list.drop_last());
    }
}

/// The notes of the chat hold the facts that they are about.
pub proof fn notes_hold_their_facts(
    provider: Seq<char>,
    model: Seq<char>,
    round: nat,
    round_cap: nat,
    entries: nat,
    entry_cap: nat,
    cwd: Seq<char>,
)
    ensures
        ({
            let text = status_text(provider, model, round, round_cap, entries, entry_cap, cwd);
            &&& holds(text, "Provider   "@ + provider + "\n"@)
            &&& holds(text, "Model      "@ + model + "\n"@)
            &&& holds(text, "Round      "@ + decimal(round) + " / "@ + decimal(round_cap) + "\n"@)
            &&& holds(text, decimal(entries) + "/"@ + decimal(entry_cap) + " entries"@)
            &&& ("Cwd        "@ + cwd).is_suffix_of(text)
        }),
{
    let text = status_text(provider, model, round, round_cap, entries, entry_cap, cwd);
    reveal_strlit("Provider   ");
    reveal_strlit("\nModel      ");
    reveal_strlit("Model      ");
    reveal_strlit("\nRound      ");
    reveal_strlit("Round      ");
    reveal_strlit("\nMemory     ");
    reveal_strlit("Memory     ");
    reveal_strlit(" entries\nCwd        ");
    reveal_strlit(" entries");
    reveal_strlit("Cwd        ");
    reveal_strlit("\n");
    let p = "Provider   "@ + provider + "\n"@;
    let m = "Model      "@ + model + "\n"@;
    let r = "Round      "@ + decimal(round) + " / "@ + decimal(round_cap) + "\n"@;
    let e = decimal(entries) + "/"@ + decimal(entry_cap) + " entries"@;
    let c = "Cwd        "@ + cwd;
    let nl = "\n"@;
    let mem = "Memory     "@;
    assert(text =~= p + m + r + mem + e + nl + c);
    let none = Seq::<char>::empty();
    assert(text =~= none + p + (m + r + mem + e + nl + c));
    lemma_stands_between(none, p, m + r + mem + e + nl + c);
    assert(text =~= p + m + (r + mem + e + nl + c));
    lemma_stands_between(p, m, r + mem + e + nl + c);
    assert(text =~= (p + m) + r + (mem + e + nl + c));
    lemma_stands_between(p + m, r, mem + e + nl + c);
    assert(text =~= (p + m + r + mem) + e + (nl + c));
    lemma_stands_between(p + m + r + mem, e, nl + c);
    assert(text.subrange(text.len() - c.len(), text.len() as int) =~= c);
}

/// A note is shown at the end of the chat and is no part of the conversation.
pub proof fn notes_are_only_shown(app: AppView, text: Seq<char>)
    ensures
        ({
            let after = informed(app, text);
            &&& after.stream.messages.drop_last() == app.stream.messages
            &&& after.stream.messages.last().content == text
            &&& after.stream.messages.last().is_context
            &&& persisted(after.stream.messages) == persisted(app.stream.messages)
            &&& after.dirty && after.line == app.line
        }),
{
    let after = informed(app, text);
    assert(after.stream.messages.drop_last() =~= app.stream.messages);
    assert(crate::chat_history::kept(after.stream.messages) == crate::chat_history::kept(
        app.stream.messages,
    ));
}

} // verus!
