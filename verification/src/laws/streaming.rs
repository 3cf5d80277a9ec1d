//! Streaming an answer: what each event does to the conversation, and what is
//! left of the events once the answer is over.
use crate::chat_stream::{
    EventView, MessageView, Role, StreamView, all_split_whole, applied, attached, cancelled,
    completed, concatenated, drained, drained_out, ending, finalized, grapheme_clusters, is_ending,
    is_hollow, last_open_answer, last_open_text, last_open_tool, lemma_concatenated,
    lemma_drained_out, lemma_hollow_dropped, poured_out, received, release_count, released,
    splits_whole, started, without_hollow,
};
use crate::json::JsonView;
use vstd::prelude::*;
use vstd::string::*;

verus! {

// ---------------------------------------------------------------------------
// The growing message and the running tool
// ---------------------------------------------------------------------------

/// Whether the message at `at` is the one that grows: it is a text that is not
/// complete, and no later message is.
pub open spec fn grows_at(list: Seq<MessageView>, at: int) -> bool {
    &&& 0 <= at < list.len()
    &&& list[at].tool_name is None && !list[at].complete
    &&& forall|k: int|
        at < k < list.len() ==> (#[trigger] list[k]).tool_name is Some || list[k].complete
}

/// Whether the message at `at` is the tool call that runs: it is not complete,
/// and no later tool call is running.
pub open spec fn runs_at(list: Seq<MessageView>, at: int) -> bool {
    &&& 0 <= at < list.len()
    &&& list[at].tool_name is Some && !list[at].complete
    &&& forall|k: int|
        at < k < list.len() ==> (#[trigger] list[k]).tool_name is None || list[k].complete
}

proof fn lemma_grows(list: Seq<MessageView>, at: int)
    requires
        grows_at(list, at),
    ensures
        last_open_text(list) == at,
    decreases list.len(),
{
    if at < list.len() - 1 {
        let rest = list.drop_last();
        assert(list[list.len() - 1] == list.last());
        assert forall|k: int| at < k < rest.len() implies (#[trigger] rest[k]).tool_name is Some
            || rest[k].complete by {
            assert(rest[k] == list[k]);
        }
        lemma_grows(rest, at);
    }
}

proof fn lemma_runs(list: Seq<MessageView>, at: int)
    requires
        runs_at(list, at),
    ensures
        last_open_tool(list) == at,
    decreases list.len(),
{
    if at < list.len() - 1 {
        let rest = list.drop_last();
        assert(list[list.len() - 1] == list.last());
        assert forall|k: int| at < k < rest.len() implies (#[trigger] rest[k]).tool_name is None
            || rest[k].complete by {
            assert(rest[k] == list[k]);
        }
        lemma_runs(rest, at);
    }
}

proof fn lemma_nothing_runs(list: Seq<MessageView>)
    requires
        forall|k: int| 0 <= k < list.len() ==> (#[trigger] list[k]).tool_name is None || list[k].complete,
    ensures
        last_open_tool(list) == -1,
    decreases list.len(),
{
    if list.len() > 0 {
        assert(list[list.len() - 1] == list.last());
        let rest = list.drop_last();
        assert forall|k: int| 0 <= k < rest.len() implies (#[trigger] rest[k]).tool_name is None
            || rest[k].complete by {
            assert(rest[k] == list[k]);
        }
        lemma_nothing_runs(rest);
    }
}

// ---------------------------------------------------------------------------
// One event
// ---------------------------------------------------------------------------

/// Whether two lists hold the same messages but for the one at `at`.
pub open spec fn same_but(a: Seq<MessageView>, b: Seq<MessageView>, at: int) -> bool {
    a.len() == b.len() && forall|k: int| 0 <= k < a.len() && k != at ==> #[trigger] a[k] == b[k]
}

/// A token changes no message: it waits behind the text that waits already.
pub proof fn tokens_wait_in_order(st: StreamView, t: Seq<char>)
    requires
        splits_whole(EventView::Token(t)),
    ensures
        applied(st, EventView::Token(t)).messages == st.messages,
        concatenated(applied(st, EventView::Token(t)).queue) == concatenated(st.queue) + t,
{
    lemma_concatenated(st.queue, grapheme_clusters(t));
}

/// Reasoning is added behind the reasoning of the growing message, and changes
/// nothing else.
pub proof fn reasoning_is_added(st: StreamView, t: Seq<char>, at: int)
    requires
        grows_at(st.messages, at),
    ensures
        ({
            let after = applied(st, EventView::Reasoning(t));
            &&& same_but(after.messages, st.messages, at)
            &&& after.messages[at].reasoning_content == st.messages[at].reasoning_content + t
            &&& after.messages[at].content == st.messages[at].content
            &&& !after.messages[at].complete && after.messages[at].tool_name is None
            &&& after.messages[at].role == st.messages[at].role
            &&& after.queue == st.queue
        }),
{
    lemma_grows(st.messages, at);
}

/// An answer that starts is a new, empty message of the assistant that grows;
/// it is left out of the conversation that is kept exactly where that was asked
/// for, and only this once.
pub proof fn answers_start_empty(st: StreamView)
    ensures
        ({
            let after = applied(st, EventView::AssistantStart);
            let at = st.messages.len() as int;
            &&& after.messages.len() == at + 1
            &&& forall|k: int| 0 <= k < at ==> #[trigger] after.messages[k] == st.messages[k]
            &&& grows_at(after.messages, at)
            &&& after.messages[at].role == Role::Assistant
            &&& after.messages[at].content.len() == 0
            &&& after.messages[at].reasoning_content.len() == 0
            &&& after.messages[at].is_context == st.next_is_context
            &&& !after.next_is_context
            &&& after.queue == st.queue
        }),
{
}

/// A tool call that starts gets a line of its own, under its name and with its
/// arguments; it runs, and no text is added to it.
pub proof fn tool_calls_get_a_line(st: StreamView, name: Seq<char>, args: Seq<char>)
    ensures
        ({
            let after = applied(st, EventView::ToolStart { name, args_preview: args });
            let at = st.messages.len() as int;
            &&& after.messages.len() == at + 1
            &&& forall|k: int| 0 <= k < at ==> #[trigger] after.messages[k] == st.messages[k]
            &&& runs_at(after.messages, at)
            &&& after.messages[at].tool_name == Some(name)
            &&& after.messages[at].tool_args == Some(args)
            &&& !after.messages[at].tool_failed
            &&& forall|k: int|
                grows_at(st.messages, k) ==> #[trigger] grows_at(after.messages, k)
        }),
{
    let after = applied(st, EventView::ToolStart { name, args_preview: args });
    let at = st.messages.len() as int;
    assert forall|k: int| grows_at(st.messages, k) implies #[trigger] grows_at(
        after.messages,
        k,
    ) by {
        assert(after.messages[k] == st.messages[k]);
        assert forall|j: int| k < j < after.messages.len() implies (
        #[trigger] after.messages[j]).tool_name is Some || after.messages[j].complete by {
            if j < at {
                assert(after.messages[j] == st.messages[j]);
            }
        }
    }
}

/// The result of a tool, or its error, goes to the call that runs; that call is
/// complete then, and marked as failed exactly where it failed. Nothing else
/// changes.
pub proof fn tool_results_go_to_the_running_call(st: StreamView, text: Seq<char>, at: int)
    requires
        runs_at(st.messages, at),
    ensures
        ({
            let done = applied(st, EventView::ToolDone { result_preview: text });
            let failed = applied(st, EventView::ToolFailed { error: text });
            &&& same_but(done.messages, st.messages, at)
            &&& done.messages[at].content == text && done.messages[at].complete
            &&& done.messages[at].tool_failed == st.messages[at].tool_failed
            &&& done.messages[at].tool_name == st.messages[at].tool_name
            &&& done.messages[at].tool_args == st.messages[at].tool_args
            &&& same_but(failed.messages, st.messages, at)
            &&& failed.messages[at].content == text && failed.messages[at].complete
            &&& failed.messages[at].tool_failed
            &&& failed.messages[at].tool_name == st.messages[at].tool_name
            &&& failed.messages[at].tool_args == st.messages[at].tool_args
        }),
{
    lemma_runs(st.messages, at);
}

/// An error of a tool that has no running call is shown all the same, in a
/// message of its own; a result without one is dropped.
pub proof fn stray_tool_errors_are_shown(st: StreamView, text: Seq<char>)
    requires
        forall|k: int|
            0 <= k < st.messages.len() ==> (#[trigger] st.messages[k]).tool_name is None
                || st.messages[k].complete,
    ensures
        ({
            let done = applied(st, EventView::ToolDone { result_preview: text });
            let failed = applied(st, EventView::ToolFailed { error: text });
            let at = st.messages.len() as int;
            &&& done.messages == st.messages
            &&& failed.messages.len() == at + 1
            &&& failed.messages.drop_last() == st.messages
            &&& failed.messages[at].content == "[tool error: "@ + text + "]"@
            &&& failed.messages[at].complete && failed.messages[at].tool_name is None
            &&& failed.messages[at].role == Role::Assistant
        }),
{
    lemma_nothing_runs(st.messages);
    assert(applied(st, EventView::ToolFailed { error: text }).messages.drop_last()
        =~= st.messages);
}

/// A question for approval is put to the user as it came, and the end of an
/// answer, with or without an error, ends the wait for events.
pub proof fn approvals_and_ends_are_noted(st: StreamView, text: Seq<char>)
    ensures
        applied(st, EventView::ApprovalRequired { summary: text }).pending_approval == Some(text),
        applied(st, EventView::ApprovalRequired { summary: text }).receiving == st.receiving,
        applied(st, EventView::ApprovalRequired { summary: text }).messages == st.messages,
        !applied(st, EventView::Done).receiving && applied(st, EventView::Done).pending_done,
        applied(st, EventView::Done).pending_err == st.pending_err,
        applied(st, EventView::Done).messages == st.messages,
        applied(st, EventView::Done).queue == st.queue,
        !applied(st, EventView::Failed(text)).receiving,
        applied(st, EventView::Failed(text)).pending_err == Some(text),
        applied(st, EventView::Failed(text)).messages == st.messages,
        applied(st, EventView::Failed(text)).queue == st.queue,
{
}

/// The transcript that comes last is the one that is kept for the answer.
pub proof fn the_last_transcript_counts(st: StreamView, items: Seq<JsonView>)
    ensures
        applied(st, EventView::ResponsesState(items)).pending_items == items,
        applied(st, EventView::ResponsesState(items)).messages == st.messages,
        applied(st, EventView::ResponsesState(items)).queue == st.queue,
{
}

// ---------------------------------------------------------------------------
// A round of events
// ---------------------------------------------------------------------------

/// Whether events wait behind this one.
pub open spec fn makes_wait(e: EventView) -> bool {
    e is Done || e is Failed || e is ApprovalRequired
}

/// A round takes its events in order: all of them, where none makes the others
/// wait, else those up to the first that does. A stream that is not receiving
/// takes none.
pub proof fn events_are_taken_in_order(
    st: StreamView,
    events: Seq<EventView>,
    closed: bool,
    n: int,
)
    requires
        0 <= n <= events.len(),
        forall|i: int| 0 <= i < n ==> !makes_wait(#[trigger] events[i]),
        n < events.len() ==> makes_wait(events[n]),
    ensures
        st.receiving ==> received(st, events, closed).2 == if n < events.len() {
            n + 1
        } else {
            n
        },
        !st.receiving ==> received(st, events, closed) == (st, false, 0nat),
        st.receiving && n == events.len() && closed ==> ({
            let after = received(st, events, closed).0;
            !after.receiving && after.pending_done
        }),
        st.receiving && n == events.len() && !closed ==> received(st, events, closed).0.receiving,
    decreases events.len(),
{
    if st.receiving && events.len() > 0 {
        if n > 0 {
            assert(!makes_wait(events[0]));
            let rest = events.drop_first();
            assert forall|i: int| 0 <= i < n - 1 implies !makes_wait(#[trigger] rest[i]) by {
                assert(rest[i] == events[i + 1]);
            }
            if n < events.len() {
                assert(rest[n - 1] == events[n]);
            }
            events_are_taken_in_order(applied(st, events[0]), rest, closed, n - 1);
        }
    }
}

/// The reasoning that events bring, in order.
pub open spec fn reasoning_of(events: Seq<EventView>) -> Seq<char>
    decreases events.len(),
{
    if events.len() == 0 {
        seq![]
    } else {
        (match events[0] {
            EventView::Reasoning(t) => t,
            _ => seq![],
        }) + reasoning_of(events.drop_first())
    }
}

/// The text that events bring, in order.
pub open spec fn spoken_of(events: Seq<EventView>) -> Seq<char>
    decreases events.len(),
{
    if events.len() == 0 {
        seq![]
    } else {
        (match events[0] {
            EventView::Token(t) => t,
            _ => seq![],
        }) + spoken_of(events.drop_first())
    }
}

/// A round loses no reasoning and no text: as long as no further answer starts,
/// the growing message has the reasoning of all events that were taken behind
/// what it had, and their text waits behind what waited.
pub proof fn rounds_keep_reasoning_and_text(
    st: StreamView,
    events: Seq<EventView>,
    closed: bool,
    at: int,
)
    requires
        grows_at(st.messages, at),
        all_split_whole(events),
        forall|i: int| 0 <= i < events.len() ==> !((#[trigger] events[i]) is AssistantStart),
    ensures
        ({
            let (after, _, taken) = received(st, events, closed);
            &&& taken <= events.len()
            &&& grows_at(after.messages, at)
            &&& after.messages[at].reasoning_content == st.messages[at].reasoning_content
                + reasoning_of(events.take(taken as int))
            &&& after.messages[at].content == st.messages[at].content
            &&& after.messages[at].role == st.messages[at].role
            &&& concatenated(after.queue) == concatenated(st.queue) + spoken_of(
                events.take(taken as int),
            )
        }),
    decreases events.len(),
{
    let (after, _, taken) = received(st, events, closed);
    let had = st.messages[at].reasoning_content;
    let waited = concatenated(st.queue);
    assert(had + Seq::<char>::empty() =~= had);
    assert(waited + Seq::<char>::empty() =~= waited);
    if st.receiving && events.len() > 0 {
        let e = events[0];
        let rest = events.drop_first();
        let next = applied(st, e);
        assert(!(e is AssistantStart));
        assert(splits_whole(e));
        lemma_one_event(st, e, at);
        assert forall|i: int| 0 <= i < rest.len() implies !((#[trigger] rest[i]) is AssistantStart) by {
            assert(rest[i] == events[i + 1]);
        }
        assert forall|i: int| 0 <= i < rest.len() implies splits_whole(#[trigger] rest[i]) by {
            assert(rest[i] == events[i + 1]);
        }
        let here = match e {
            EventView::Reasoning(t) => t,
            _ => seq![],
        };
        let said = match e {
            EventView::Token(t) => t,
            _ => seq![],
        };
        if makes_wait(e) {
            assert(taken == 1);
            assert(events.take(1).drop_first() =~= seq![]);
            assert(events.take(1)[0] == e);
            assert(here + reasoning_of(seq![]) =~= here);
            assert(said + spoken_of(seq![]) =~= said);
        } else {
            rounds_keep_reasoning_and_text(next, rest, closed, at);
            let t = received(next, rest, closed).2 as int;
            assert(taken == t + 1);
            assert(events.take(t + 1).drop_first() =~= rest.take(t));
            assert(events.take(t + 1)[0] == e);
            assert(had + here + reasoning_of(rest.take(t)) =~= had + (here + reasoning_of(
                rest.take(t),
            )));
            assert(waited + said + spoken_of(rest.take(t)) =~= waited + (said + spoken_of(
                rest.take(t),
            )));
        }
    } else {
        assert(events.take(0) =~= seq![]);
    }
}

proof fn lemma_one_event(st: StreamView, e: EventView, at: int)
    requires
        grows_at(st.messages, at),
        splits_whole(e),
        !(e is AssistantStart),
    ensures
        ({
            let next = applied(st, e);
            &&& grows_at(next.messages, at)
            &&& next.messages[at].reasoning_content == st.messages[at].reasoning_content + (
            match e {
                EventView::Reasoning(t) => t,
                _ => seq![],
            })
            &&& next.messages[at].content == st.messages[at].content
            &&& next.messages[at].role == st.messages[at].role
            &&& concatenated(next.queue) == concatenated(st.queue) + (match e {
                EventView::Token(t) => t,
                _ => seq![],
            })
        }),
{
    let next = applied(st, e);
    let had = st.messages[at].reasoning_content;
    assert(had + Seq::<char>::empty() =~= had);
    assert(concatenated(st.queue) + Seq::<char>::empty() =~= concatenated(st.queue));
    lemma_grows(st.messages, at);
    match e {
        EventView::Token(t) => {
            tokens_wait_in_order(st, t);
        },
        EventView::ToolStart { name, args_preview } => {
            tool_calls_get_a_line(st, name, args_preview);
            assert(grows_at(next.messages, at));
        },
        EventView::ToolDone { .. } | EventView::ToolFailed { .. } => {
            lemma_last_tool(st.messages);
            let k = last_open_tool(st.messages);
            assert(next.messages[at] == st.messages[at]);
            assert forall|j: int| at < j < next.messages.len() implies (
            #[trigger] next.messages[j]).tool_name is Some || next.messages[j].complete by {
                if j < st.messages.len() {
                    assert(st.messages[j].tool_name is Some || st.messages[j].complete);
                }
            }
        },
        _ => {},
    }
}

proof fn lemma_last_tool(list: Seq<MessageView>)
    ensures
        -1 <= last_open_tool(list) < list.len(),
        last_open_tool(list) >= 0 ==> list[last_open_tool(list)].tool_name is Some
            && !list[last_open_tool(list)].complete,
    decreases list.len(),
{
    if list.len() > 0 && !list.last().is_open_tool() {
        lemma_last_tool(list.drop_last());
    }
}

/// What is released goes to the growing message: its text is the text it had and
/// what stood first in the queue; the rest waits on in order. Where anything
/// waits, at least three clusters are released or all of them, and never more
/// than twenty-four; the more wait, the more are released.
pub proof fn released_text_leads_the_queue(st: StreamView, at: int)
    requires
        grows_at(st.messages, at),
    ensures
        ({
            let after = released(st);
            &&& same_but(after.messages, st.messages, at)
            &&& after.messages[at].content + concatenated(after.queue)
                == st.messages[at].content + concatenated(st.queue)
            &&& st.messages[at].content.is_prefix_of(after.messages[at].content)
            &&& after.messages[at].reasoning_content == st.messages[at].reasoning_content
            &&& !after.messages[at].complete
            &&& after.queue.is_suffix_of(st.queue)
            &&& st.queue.len() >= 3 ==> st.queue.len() - 24 <= after.queue.len()
                <= st.queue.len() - 3
            &&& st.queue.len() < 3 ==> after.queue.len() == 0
        }),
{
    lemma_grows(st.messages, at);
    let after = released(st);
    let n = st.queue.len() - after.queue.len();
    let head = st.queue.take(n);
    let tail = st.queue.skip(n);
    lemma_concatenated(head, tail);
    assert(head + tail =~= st.queue);
    let had = st.messages[at].content;
    assert(had + concatenated(head) + concatenated(tail) =~= had + (concatenated(head)
        + concatenated(tail)));
    if n == 0 {
        assert(tail =~= st.queue);
        assert(had.subrange(0, had.len() as int) =~= had);
    } else {
        assert(after.messages[at].content == had + concatenated(head));
        assert((had + concatenated(head)).subrange(0, had.len() as int) =~= had);
    }
    assert(after.queue =~= st.queue.subrange(n, st.queue.len() as int));
}

/// The pace follows the backlog: it never falls as more waits, and a short
/// backlog of up to five, thirty or eighty clusters has its own pace.
pub proof fn the_pace_follows_the_backlog(a: nat, b: nat)
    ensures
        a <= b ==> release_count(a) <= release_count(b),
        release_count(a) == 3 <==> a <= 5,
        release_count(a) == 8 <==> 5 < a <= 30,
        release_count(a) == 16 <==> 30 < a <= 80,
        release_count(a) == 24 <==> 80 < a,
{
}

/// A round ends the answer exactly where its end has come in and nothing waits
/// any more after the release; the stream is over then.
pub proof fn rounds_end_answers_once_all_is_shown(
    st: StreamView,
    events: Seq<EventView>,
    closed: bool,
)
    ensures
        ({
            let after = received(st, events, closed).0;
            let shown = released(after);
            let over = shown.queue.len() == 0 && (after.pending_done || after.pending_err is Some);
            &&& over <==> ending(st, events, closed) is Some
            &&& over ==> ending(st, events, closed) == Some(
                (after.pending_err is Some, after.transient),
            )
            &&& over ==> {
                let end = drained(st, events, closed).0;
                &&& !end.is_streaming && !end.pending_done && end.pending_err is None
                &&& !end.transient && end.queue.len() == 0
                &&& drained(st, events, closed).1
            }
            &&& !over ==> {
                let end = drained(st, events, closed).0;
                &&& end.is_streaming == after.is_streaming
                &&& end.messages == shown.messages && end.queue == shown.queue
            }
            &&& after.queue.len() > 0 ==> drained(st, events, closed).1
        }),
{
}

// ---------------------------------------------------------------------------
// The end
// ---------------------------------------------------------------------------

/// A stream that failed shows the error behind the text that came before it, or
/// in a message of its own; the message is complete, and no other changes.
pub proof fn errors_are_shown_behind_the_text(st: StreamView, error: Seq<char>)
    requires
        st.pending_err == Some(error),
    ensures
        ({
            let end = finalized(st);
            let n = st.messages.len() as int;
            let note = "[error: "@ + error + "]"@;
            let open = n > 0 && st.messages[n - 1].tool_name is None && !st.messages[n
                - 1].complete;
            &&& end.messages.len() == if open {
                n
            } else {
                n + 1
            }
            &&& end.messages.last().complete && end.messages.last().tool_name is None
            &&& note.is_suffix_of(end.messages.last().content)
            &&& open ==> st.messages[n - 1].content.is_prefix_of(end.messages.last().content)
            &&& open ==> end.messages.last().reasoning_content == st.messages[n
                - 1].reasoning_content
            &&& open && st.messages[n - 1].content.len() > 0 ==> end.messages.last().content
                == st.messages[n - 1].content + "\n"@ + note
            &&& (!open || st.messages[n - 1].content.len() == 0) ==> end.messages.last().content
                == note
            &&& forall|k: int|
                0 <= k < end.messages.len() - 1 ==> #[trigger] end.messages[k] == st.messages[k]
            &&& !end.is_streaming && end.pending_err is None
        }),
{
    let end = finalized(st);
    let note = "[error: "@ + error + "]"@;
    let text = end.messages.last().content;
    let n = st.messages.len() as int;
    if n > 0 && st.messages.last().tool_name is None && !st.messages.last().complete {
        let c = st.messages.last().content;
        assert(c + ("\n"@ + note) =~= c + "\n"@ + note);
        if c.len() > 0 {
            assert(text.subrange(0, c.len() as int) =~= c);
        } else {
            assert(text.subrange(0, 0) =~= c);
        }
    }
    assert(text.subrange(text.len() - note.len(), text.len() as int) =~= note);
}

/// Whether a message said something.
pub open spec fn says(m: MessageView, role: Role, content: Seq<char>, reasoning: Seq<char>) -> bool {
    m.role == role && m.content == content && m.reasoning_content == reasoning
}

/// A stream that ends well keeps all that was said: every message with text or
/// reasoning is still there, word for word and by the same speaker, and no text
/// or reasoning is there that was not before. Every message but a tool call is
/// complete.
pub proof fn endings_keep_what_was_said(st: StreamView, i: int)
    requires
        st.pending_err is None,
        0 <= i < st.messages.len(),
    ensures
        st.messages[i].content.len() > 0 || st.messages[i].reasoning_content.len() > 0 ==> exists|j: int|
            0 <= j < finalized(st).messages.len() && says(
                #[trigger] finalized(st).messages[j],
                st.messages[i].role,
                st.messages[i].content,
                st.messages[i].reasoning_content,
            ),
        forall|j: int|
            0 <= j < finalized(st).messages.len() ==> (#[trigger] finalized(st).messages[j]).complete
                || finalized(st).messages[j].tool_name is Some,
{
    let placed = attached(st.messages, st.pending_items, st.transient);
    let done = completed(placed);
    let end = without_hollow(done);
    assert(finalized(st).messages == end);
    let m = st.messages[i];
    assert(says(placed[i], m.role, m.content, m.reasoning_content));
    assert(says(done[i], m.role, m.content, m.reasoning_content));
    if m.content.len() > 0 || m.reasoning_content.len() > 0 {
        lemma_hollow_dropped(done, i);
        let j = choose|j: int| 0 <= j < end.len() && end[j] == done[i];
        assert(says(finalized(st).messages[j], m.role, m.content, m.reasoning_content));
    }
    assert forall|j: int| 0 <= j < end.len() implies (#[trigger] end[j]).complete
        || end[j].tool_name is Some by {
        lemma_kept_from(done, j);
        let k = choose|k: int| 0 <= k < done.len() && end[j] == #[trigger] done[k];
        assert(done[k].complete || done[k].tool_name is Some);
    }
}

proof fn lemma_kept_from(list: Seq<MessageView>, j: int)
    requires
        0 <= j < without_hollow(list).len(),
    ensures
        exists|k: int| 0 <= k < list.len() && without_hollow(list)[j] == #[trigger] list[k],
        !is_hollow(without_hollow(list)[j]),
    decreases list.len(),
{
    if list.len() > 0 {
        let rest = list.drop_last();
        let before = without_hollow(rest);
        if j < before.len() {
            lemma_kept_from(rest, j);
            let k = choose|k: int| 0 <= k < rest.len() && before[j] == #[trigger] rest[k];
            assert(without_hollow(list)[j] == list[k]);
        } else {
            assert(without_hollow(list)[j] == list[list.len() - 1]);
        }
    }
}

/// An answer that ended well without a word, a thought or a transcript is not
/// left behind as an empty message.
pub proof fn empty_answers_leave_nothing(st: StreamView, j: int)
    requires
        st.pending_err is None,
        0 <= j < finalized(st).messages.len(),
    ensures
        ({
            let m = finalized(st).messages[j];
            m.role == Role::Assistant && !m.is_context && m.tool_name is None ==> m.content.len()
                > 0 || m.reasoning_content.len() > 0 || m.responses_items.len() > 0
        }),
{
    let done = completed(attached(st.messages, st.pending_items, st.transient));
    lemma_kept_from(done, j);
    let k = choose|k: int|
        0 <= k < done.len() && without_hollow(done)[j] == #[trigger] done[k];
    assert(done[k].complete || done[k].tool_name is Some);
}

/// Whether the events are tokens and reasoning of an answer, and then its end.
pub open spec fn is_thoughtful_answer(events: Seq<EventView>) -> bool {
    &&& events.len() > 0
    &&& events.last() is Done
    &&& forall|i: int|
        0 <= i < events.len() - 1 ==> (#[trigger] events[i]) is Token || events[i] is Reasoning
}

/// Draining an answer to its end keeps its words and its thoughts: the growing
/// message ends complete, with all tokens behind the text it held and all the
/// reasoning behind the reasoning it held, in order.
pub proof fn draining_keeps_words_and_thoughts(
    st: StreamView,
    events: Seq<EventView>,
    closed: bool,
)
    requires
        st.receiving,
        st.queue.len() == 0,
        st.pending_err is None,
        st.messages.len() > 0,
        grows_at(st.messages, st.messages.len() - 1),
        is_thoughtful_answer(events),
        all_split_whole(events),
    ensures
        ({
            let m = st.messages.last();
            let words = m.content + spoken_of(events);
            let thoughts = m.reasoning_content + reasoning_of(events);
            let end = drained_out(drained(st, events, closed).0);
            &&& words.len() > 0 || thoughts.len() > 0 ==> exists|i: int|
                0 <= i < end.messages.len() && says(
                    #[trigger] end.messages[i],
                    m.role,
                    words,
                    thoughts,
                ) && end.messages[i].complete
            &&& !end.is_streaming && !end.receiving && end.queue.len() == 0
        }),
{
    let at = st.messages.len() - 1;
    let n = events.len() - 1;
    assert forall|i: int| 0 <= i < events.len() implies !((
    #[trigger] events[i]) is AssistantStart) by {
        if i == n {
            assert(events[i] == events.last());
        }
    }
    assert(makes_wait(events[n]));
    assert forall|i: int| 0 <= i < n implies !makes_wait(#[trigger] events[i]) by {
        assert(events[i] is Token || events[i] is Reasoning);
    }
    rounds_keep_reasoning_and_text(st, events, closed, at);
    events_are_taken_in_order(st, events, closed, n);
    let (after, _, taken) = received(st, events, closed);
    assert(events.take(taken as int) =~= events);
    lemma_answer_state(st, events, closed);
    lemma_drained_out(after, seq![], false);
    assert(drained(st, events, closed).0 == drained(after, seq![], false).0);
    assert(concatenated(st.queue) =~= seq![]);
    let m = st.messages.last();
    let words = m.content + spoken_of(events);
    let thoughts = m.reasoning_content + reasoning_of(events);
    let poured = poured_out(after);
    assert(poured.messages[at].content =~= words);
    assert(says(poured.messages[at], m.role, words, thoughts));
    endings_keep_what_was_said(poured, at);
    let end = drained_out(drained(st, events, closed).0);
    assert(end == finalized(poured));
    if words.len() > 0 || thoughts.len() > 0 {
        let placed = attached(poured.messages, poured.pending_items, poured.transient);
        let done = completed(placed);
        assert(done[at].complete && says(done[at], m.role, words, thoughts));
        lemma_hollow_dropped(done, at);
        let j = choose|j: int| 0 <= j < end.messages.len() && end.messages[j] == done[at];
        assert(says(end.messages[j], m.role, words, thoughts) && end.messages[j].complete);
    }
}

proof fn lemma_answer_state(st: StreamView, events: Seq<EventView>, closed: bool)
    requires
        st.receiving,
        st.pending_err is None,
        st.messages.len() > 0,
        grows_at(st.messages, st.messages.len() - 1),
        is_thoughtful_answer(events),
    ensures
        ({
            let after = received(st, events, closed).0;
            &&& is_ending(after)
            &&& after.messages.len() == st.messages.len()
        }),
    decreases events.len(),
{
    let e = events[0];
    if events.len() == 1 {
        assert(e == events.last());
    } else {
        assert(e is Token || e is Reasoning);
        lemma_grows(st.messages, st.messages.len() - 1);
        let rest = events.drop_first();
        assert(rest.last() == events.last());
        assert forall|i: int| 0 <= i < rest.len() - 1 implies (#[trigger] rest[i]) is Token
            || rest[i] is Reasoning by {
            assert(rest[i] == events[i + 1]);
        }
        let next = applied(st, e);
        assert(grows_at(next.messages, next.messages.len() - 1));
        lemma_answer_state(next, rest, closed);
    }
}

/// Cancelling stops the stream and forgets what was still waiting; the
/// conversation stays as it is.
pub proof fn cancelling_leaves_the_conversation(st: StreamView)
    ensures
        cancelled(st).messages == st.messages,
        !cancelled(st).is_streaming && !cancelled(st).receiving && !cancelled(st).pending_done,
        cancelled(st).queue.len() == 0,
        cancelled(st).pending_err is None,
        cancelled(st).pending_items.len() == 0,
{
}

/// A new stream starts clean: nothing of an earlier answer waits, and the
/// conversation stays as it is. A transient one keeps its answer out of the
/// conversation that is kept.
pub proof fn streams_start_clean(st: StreamView, transient: bool)
    ensures
        started(st, transient).messages == st.messages,
        started(st, transient).is_streaming && started(st, transient).receiving,
        !started(st, transient).pending_done,
        started(st, transient).pending_err is None,
        started(st, transient).queue.len() == 0,
        started(st, transient).pending_items.len() == 0,
        transient ==> started(st, transient).transient && started(st, transient).next_is_context,
        !transient ==> started(st, transient).transient == st.transient,
{
}

/// Whether a message is an answer of the assistant that is still growing and will
/// be kept: no note, no tool call.
pub open spec fn grows(m: MessageView) -> bool {
    m.role == Role::Assistant && !m.is_context && m.tool_name is None && !m.complete
}

/// What an answer is made of goes to the last one that is still growing, and to
/// no question, note or tool call.
pub proof fn the_last_growing_answer_is_found(list: Seq<MessageView>, at: int)
    ensures
        0 <= at < list.len() && grows(list[at]) && (forall|k: int|
            at < k < list.len() ==> !grows(#[trigger] list[k])) ==> last_open_answer(list) == at,
        (forall|k: int| 0 <= k < list.len() ==> !grows(#[trigger] list[k])) ==> last_open_answer(
            list,
        ) == -1,
    decreases list.len(),
{
    if list.len() > 0 {
        let rest = list.drop_last();
        the_last_growing_answer_is_found(rest, at);
        assert(forall|k: int| 0 <= k < rest.len() ==> #[trigger] rest[k] == list[k]);
        assert(list[list.len() - 1] == list.last());
    }
}

} // verus!
