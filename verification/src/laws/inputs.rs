//! The input line of the chat and the choice of a model.
use crate::chat_input::{
    INPUT_UNDO_MAX, attachment_offered, attachments_available, attachments_offered, pasted, picked,
    pushed, rotated, spliced, token_at, word_end, word_start,
};
use crate::chat_models::{
    FetchReply, FetchView, MAX_LISTED_MODELS, ModelsView, capped, current_of, fetched,
    initial_models, led_by, marked_models, model_reply, others, place_of,
};
use crate::chat_prompt::AttachmentOption;
use crate::laws::searches::lemma_joined_holds;
use crate::laws::{holds, lemma_held_in_part, lemma_stands_between};
use crate::text::{is_space, joined, lowered, views, without_start};
use vstd::prelude::*;
use vstd::string::*;

verus! {

// ---------------------------------------------------------------------------
// Editing
// ---------------------------------------------------------------------------

/// A snapshot goes on top of those that were taken before; only where the stack
/// is full does the oldest give way, and no snapshot is taken of an empty line.
pub proof fn snapshots_pile_up(stack: Seq<(Seq<char>, usize)>, input: Seq<char>, cursor: usize)
    ensures
        input.len() == 0 ==> pushed(stack, input, cursor) == stack,
        input.len() > 0 && stack.len() < INPUT_UNDO_MAX ==> pushed(stack, input, cursor) == stack
            + seq![(input, cursor)],
        input.len() > 0 && stack.len() == INPUT_UNDO_MAX ==> pushed(stack, input, cursor)
            == stack.skip(1) + seq![(input, cursor)],
{
    assert(stack.push((input, cursor)) =~= stack + seq![(input, cursor)]);
    if stack.len() == INPUT_UNDO_MAX {
        assert(stack.drop_first().push((input, cursor)) =~= stack.skip(1) + seq![(input, cursor)]);
    }
}

/// Replacing a part of the line leaves what stands before and behind it.
pub proof fn replacing_leaves_the_rest(s: Seq<char>, start: int, end: int, with: Seq<char>)
    requires
        0 <= start <= end <= s.len(),
    ensures
        ({
            let r = spliced(s, start, end, with);
            &&& r.len() == s.len() - (end - start) + with.len()
            &&& forall|k: int| 0 <= k < start ==> #[trigger] r[k] == s[k]
            &&& r.subrange(start, start + with.len()) == with
            &&& forall|k: int|
                end <= k < s.len() ==> r[k - end + start + with.len()] == #[trigger] s[k]
        }),
{
    let r = spliced(s, start, end, with);
    assert(r.subrange(start, start + with.len()) =~= with);
}

/// What is pasted is the text, character by character: line ends become line
/// feeds, other control characters are dropped, all else is kept.
pub proof fn pasting_goes_by_character(a: Seq<char>, b: Seq<char>, c: char)
    ensures
        pasted(a + b) == pasted(a) + pasted(b),
        c == '\n' || c == '\r' ==> pasted(seq![c]) == seq!['\n'],
        c != '\n' && c != '\r' && ((c as u32) < 0x20 || 0x7f <= c as u32 <= 0x9f) ==> pasted(
            seq![c],
        ).len() == 0,
        (c as u32) >= 0x20 && !(0x7f <= c as u32 <= 0x9f) ==> pasted(seq![c]) == seq![c],
{
    lemma_pasted(a, b);
    assert(seq![c].drop_last() =~= seq![]);
    reveal_with_fuel(pasted, 2);
    assert(pasted(seq![]) =~= seq![]);
    assert(Seq::<char>::empty().push('\n') =~= seq!['\n']);
    assert(Seq::<char>::empty().push(c) =~= seq![c]);
}

/// What is pasted stands at the cursor, which goes behind it; a line that was not
/// empty can be brought back, and the picker starts at its top again.
pub proof fn pasted_text_stands_at_the_cursor(line: crate::chat_app::LineView, text: Seq<char>)
    requires
        line.cursor <= line.input.len(),
        line.input.len() + pasted(text).len() <= usize::MAX,
        pasted(text).len() > 0,
    ensures
        ({
            let after = crate::chat_app::line_pasted(line, text);
            &&& after.input == line.input.take(line.cursor as int) + pasted(text)
                + line.input.skip(line.cursor as int)
            &&& after.cursor == line.cursor + pasted(text).len()
            &&& line.input.len() > 0 ==> after.undo.len() > 0 && after.undo.last() == (
                line.input,
                line.cursor,
            )
            &&& after.picker_index == 0
        }),
{
    let after = crate::chat_app::line_pasted(line, text);
    assert(after.input =~= line.input.take(line.cursor as int) + pasted(text) + line.input.skip(
        line.cursor as int,
    ));
}

proof fn lemma_pasted(a: Seq<char>, b: Seq<char>)
    ensures
        pasted(a + b) == pasted(a) + pasted(b),
    decreases b.len(),
{
    if b.len() == 0 {
        assert(a + b =~= a);
        assert(pasted(a) + pasted(b) =~= pasted(a));
    } else {
        lemma_pasted(a, b.drop_last());
        assert((a + b).drop_last() =~= a + b.drop_last());
        assert((a + b).last() == b.last());
        assert(pasted(a + b) =~= pasted(a) + pasted(b));
    }
}

/// The word at the cursor is found wherever it starts with the mark: the word is
/// what stands between the white space before the cursor and that behind it.
pub proof fn marked_words_are_found(s: Seq<char>, cursor: int, start: int, end: int)
    requires
        0 <= start <= cursor <= end <= s.len(),
        start < end,
        start == 0 || is_space(s[start - 1]),
        end == s.len() || is_space(s[end]),
        forall|k: int| start <= k < end ==> !is_space(#[trigger] s[k]),
    ensures
        token_at(s, cursor, s[start]) == Some((start, end)),
        forall|c: char| c != s[start] ==> (#[trigger] token_at(s, cursor, c)) is None,
{
    lemma_start(s, cursor, start);
    lemma_end(s, cursor, end);
}

proof fn lemma_start(s: Seq<char>, at: int, start: int)
    requires
        0 <= start <= at <= s.len(),
        start == 0 || is_space(s[start - 1]),
        forall|k: int| start <= k < at ==> !is_space(#[trigger] s[k]),
    ensures
        word_start(s, at) == start,
    decreases at,
{
    if at > start {
        assert(!is_space(s[at - 1]));
        lemma_start(s, at - 1, start);
    }
}

proof fn lemma_end(s: Seq<char>, at: int, end: int)
    requires
        0 <= at <= end <= s.len(),
        end == s.len() || is_space(s[end]),
        forall|k: int| at <= k < end ==> !is_space(#[trigger] s[k]),
    ensures
        word_end(s, at) == end,
    decreases s.len() - at,
{
    if at < end {
        assert(!is_space(s[at]));
        lemma_end(s, at + 1, end);
    }
}

/// The picker goes round: one step leads to the next entry, from the last one to
/// the first, and a step back undoes a step.
pub proof fn the_picker_goes_round(index: int, len: int)
    requires
        0 <= index < len <= isize::MAX,
    ensures
        rotated(index, len, 1) == if index + 1 < len {
            index + 1
        } else {
            0
        },
        rotated(index, len, -1) == if index > 0 {
            index - 1
        } else {
            len - 1
        },
        rotated(rotated(index, len, 1), len, -1) == index,
        rotated(index, len, 0) == index,
        picked(index, len) == index,
        picked(len, len) == len - 1,
{
    lemma_step_back(index, len);
    assert(rotated(index, len, 1) == (index + 1) % len);
    if index + 1 < len {
        assert((index + 1) % len == index + 1) by (nonlinear_arith)
            requires
                0 <= index + 1 < len,
        ;
        lemma_step_back(index + 1, len);
    } else {
        assert(len % len == 0) by (nonlinear_arith)
            requires
                len > 0,
        ;
        lemma_step_back(0, len);
    }
    assert(index % len == index) by (nonlinear_arith)
        requires
            0 <= index < len,
    ;
}

proof fn lemma_step_back(index: int, len: int)
    requires
        0 <= index < len <= isize::MAX,
    ensures
        rotated(index, len, -1) == if index > 0 {
            index - 1
        } else {
            len - 1
        },
{
    if index > 0 {
        assert((index - 1) % len == index - 1) by (nonlinear_arith)
            requires
                0 <= index - 1 < len,
        ;
    } else {
        assert((-1) % len == len - 1) by (nonlinear_arith)
            requires
                len > 0,
        ;
    }
}

/// A bare mark offers everything that can be attached, the selection only where
/// there is one; what is typed behind it narrows that down, in the same order.
pub proof fn attachments_are_offered_by_name(token: Seq<char>, has_selection: bool)
    ensures
        attachments_offered(attachments_available(has_selection), seq!['@'])
            == attachments_available(has_selection),
        attachments_available(has_selection).contains(AttachmentOption::Cwd),
        attachments_available(has_selection).contains(AttachmentOption::Tab),
        attachments_available(has_selection).contains(AttachmentOption::Selection)
            <==> has_selection,
        attachments_offered(attachments_available(has_selection), token)
            == attachments_available(has_selection).filter(
            |o: AttachmentOption| attachment_offered(o, token),
        ),
{
    let all = attachments_available(has_selection);
    assert(all[0] == AttachmentOption::Cwd && all[1] == AttachmentOption::Tab);
    if has_selection {
        assert(all[2] == AttachmentOption::Selection);
    }
    lemma_offered(all, token);
    lemma_offered(all, seq!['@']);
    assert(seq!['@'].drop_first() =~= seq![]);
    assert(without_start(seq!['@'], '@') =~= seq![]) by {
        reveal_with_fuel(without_start, 2);
    }
    assert(lowered(Seq::<char>::empty()) =~= seq![]);
    lemma_all_offered(all, seq!['@']);
}

proof fn lemma_offered(list: Seq<AttachmentOption>, token: Seq<char>)
    ensures
        attachments_offered(list, token) == list.filter(
            |o: AttachmentOption| attachment_offered(o, token),
        ),
    decreases list.len(),
{
    reveal(Seq::filter);
    if list.len() > 0 {
        lemma_offered(list.drop_last(), token);
    }
}

proof fn lemma_all_offered(list: Seq<AttachmentOption>, token: Seq<char>)
    requires
        forall|o: AttachmentOption| #[trigger] attachment_offered(o, token),
    ensures
        attachments_offered(list, token) == list,
    decreases list.len(),
{
    if list.len() > 0 {
        lemma_all_offered(list.drop_last(), token);
        assert(list.drop_last().push(list.last()) =~= list);
    } else {
        assert(attachments_offered(list, token) =~= list);
    }
}

/// An attachment is offered for the start of its name, in whatever case.
pub proof fn attachments_are_offered_for_their_start(o: AttachmentOption, query: Seq<char>)
    requires
        query.len() > 0,
        query[0] != '@',
    ensures
        lowered(query).is_prefix_of(
            match o {
                AttachmentOption::Cwd => "cwd"@,
                AttachmentOption::Tab => "tab"@,
                AttachmentOption::Selection => "selection"@,
            },
        ) ==> attachment_offered(o, seq!['@'] + query),
{
    reveal_strlit("@cwd");
    reveal_strlit("@tab");
    reveal_strlit("@selection");
    reveal_strlit("cwd");
    reveal_strlit("tab");
    reveal_strlit("selection");
    assert("@cwd"@.drop_first() =~= "cwd"@);
    assert("@tab"@.drop_first() =~= "tab"@);
    assert("@selection"@.drop_first() =~= "selection"@);
    assert((seq!['@'] + query).drop_first() =~= query);
    assert(without_start(query, '@') == query);
    assert(without_start(seq!['@'] + query, '@') == query);
}

// ---------------------------------------------------------------------------
// Models
// ---------------------------------------------------------------------------

proof fn lemma_place(list: Seq<Seq<char>>, model: Seq<char>)
    ensures
        0 <= place_of(list, model) <= list.len(),
        place_of(list, model) < list.len() ==> list[place_of(list, model)] == model,
        place_of(list, model) < list.len() <==> list.contains(model),
        forall|k: int| 0 <= k < place_of(list, model) ==> #[trigger] list[k] != model,
    decreases list.len(),
{
    if list.len() > 0 {
        if list[0] == model {
            assert(list.contains(model));
        } else {
            let rest = list.drop_first();
            lemma_place(rest, model);
            assert forall|k: int| 0 <= k < place_of(list, model) implies #[trigger] list[k]
                != model by {
                if k > 0 {
                    assert(rest[k - 1] == list[k]);
                }
            }
            if list.contains(model) {
                let i = choose|i: int| 0 <= i < list.len() && list[i] == model;
                assert(rest[i - 1] == model);
            }
            if rest.contains(model) {
                let i = choose|i: int| 0 <= i < rest.len() && rest[i] == model;
                assert(list[i + 1] == model);
            }
        }
    }
}

/// A model list led by a model holds that model first, and all the others in
/// their order behind it.
pub proof fn lists_are_led_by_their_model(list: Seq<Seq<char>>, model: Seq<char>, other: Seq<char>)
    ensures
        led_by(list, model)[0] == model,
        other != model && list.contains(other) ==> led_by(list, model).contains(other),
        led_by(list, model).skip(1) == list.filter(|m: Seq<char>| m != model),
{
    let led = led_by(list, model);
    assert(led.skip(1) =~= others(list, model));
    let f = |m: Seq<char>| m != model;
    lemma_same_filter(list, model);
    if other != model && list.contains(other) {
        lemma_others_hold(list, model, other);
        let k = choose|k: int| 0 <= k < others(list, model).len() && others(list, model)[k] == other;
        assert(led[k + 1] == other);
    }
}

proof fn lemma_others_hold(list: Seq<Seq<char>>, model: Seq<char>, other: Seq<char>)
    requires
        list.contains(other),
        other != model,
    ensures
        others(list, model).contains(other),
    decreases list.len(),
{
    reveal(Seq::filter);
    let rest = list.drop_last();
    let before = others(rest, model);
    let all = others(list, model);
    let i = choose|i: int| 0 <= i < list.len() && list[i] == other;
    if i < rest.len() {
        assert(rest[i] == other);
        lemma_others_hold(rest, model, other);
        let k = choose|k: int| 0 <= k < before.len() && before[k] == other;
        assert(all[k] == other);
    } else {
        assert(all == before.push(other));
        assert(all[before.len() as int] == other);
    }
}

proof fn lemma_same_filter(list: Seq<Seq<char>>, model: Seq<char>)
    ensures
        others(list, model) == list.filter(|m: Seq<char>| m != model),
    decreases list.len(),
{
    reveal(Seq::filter);
    if list.len() > 0 {
        lemma_same_filter(list.drop_last(), model);
    }
}

/// The models that are offered first: the choices that are configured; without
/// them the fast model beside the chat model; without that, what was fetched
/// last time. Only in the last case is the server asked.
pub proof fn configured_choices_come_first(
    chat: Seq<char>,
    choices: Seq<Seq<char>>,
    fast: Option<Seq<char>>,
    cached: Seq<Seq<char>>,
    last: Option<Seq<char>>,
    m: Seq<char>,
)
    ensures
        ({
            let models = initial_models(chat, choices, fast, cached, last);
            &&& choices.len() > 0 && choices.contains(m) ==> models.available.contains(m)
            &&& choices.len() == 0 ==> (fast matches Some(f) ==> models.available.contains(f))
            &&& choices.len() == 0 && fast is None && cached.contains(m)
                ==> models.available.contains(m)
            &&& models.awaited <==> choices.len() == 0 && fast is None
            &&& last matches Some(saved) ==> (models.available.contains(saved)
                && models.available.len() <= usize::MAX ==> current_of(models) == saved)
            &&& last is None ==> current_of(models) == chat
        }),
{
    let models = initial_models(chat, choices, fast, cached, last);
    if choices.len() > 0 {
        lists_are_led_by_their_model(choices, chat, m);
        assert(models.available[0] == chat);
    } else {
        match fast {
            Some(f) => {
                if f != chat {
                    assert(models.available[1] == f);
                } else {
                    assert(models.available[0] == f);
                }
            },
            None => {
                lists_are_led_by_their_model(cached, chat, m);
                assert(models.available[0] == chat);
            },
        }
    }
    if m == chat {
        assert(models.available[0] == m);
    }
    if let Some(saved) = last {
        lemma_place(models.available, saved);
    }
}

/// A list that the server sends is offered as it comes, up to the limit; the
/// model that was chosen stays chosen where it is in it. A fetch that fails
/// leaves the choice alone and says why.
pub proof fn fetched_lists_are_offered(
    models: ModelsView,
    list: Vec<String>,
    error: String,
    last: Option<Seq<char>>,
)
    requires
        models.awaited,
    ensures
        ({
            let after = fetched(models, FetchReply::List(list), last);
            let saved = match last {
                Some(m) => m,
                None => current_of(models),
            };
            &&& list@.len() <= MAX_LISTED_MODELS ==> after.available == views(list@)
            &&& list@.len() > MAX_LISTED_MODELS ==> after.available == views(list@).take(
                MAX_LISTED_MODELS as int,
            )
            &&& !after.awaited
            &&& after.fetch == FetchView::Loaded <==> after.available.contains(saved)
            &&& after.available.contains(saved) ==> current_of(after) == saved
            &&& !after.available.contains(saved) ==> after.index == 0
        }),
        ({
            let after = fetched(models, FetchReply::Failed(error), last);
            &&& after.available == models.available && after.index == models.index
            &&& after.fetch == FetchView::Failed(error@) && !after.awaited
        }),
        fetched(models, FetchReply::Pending, last) == models,
{
    let offered = capped(views(list@));
    let saved = match last {
        Some(m) => m,
        None => current_of(models),
    };
    assert(views(list@).len() == list@.len());
    lemma_place(offered, saved);
}

/// The reply to a request for a model: one that is there is switched to, one that
/// is not is answered with those that are; without a name they are listed, the
/// current one marked.
pub proof fn model_requests_are_answered(models: ModelsView, name: Seq<char>, i: int)
    ensures
        models.available.contains(name) ==> model_reply(models, Some(name)) == "Switched to "@
            + name,
        !models.available.contains(name) && 0 <= i < models.available.len() ==> holds(
            model_reply(models, Some(name)),
            models.available[i],
        ) && holds(model_reply(models, Some(name)), "'"@ + name + "' not found"@),
        0 <= i < models.available.len() ==> holds(
            model_reply(models, None),
            (if i == models.index {
                "* "@
            } else {
                "  "@
            }) + models.available[i],
        ),
{
    lemma_place(models.available, name);
    if !models.available.contains(name) && 0 <= i < models.available.len() {
        let text = model_reply(models, Some(name));
        let all = joined(models.available, ", "@);
        let front = "Model '"@ + name + "' not found. Available: "@;
        lemma_joined_holds(models.available, ", "@, i);
        assert(text =~= front + all + Seq::<char>::empty());
        lemma_stands_between(front, all, seq![]);
        lemma_held_in_part(text, all, models.available[i], front.len() as int);
        reveal_strlit("Model '");
        reveal_strlit("Model ");
        reveal_strlit("'");
        reveal_strlit("' not found. Available: ");
        reveal_strlit("' not found");
        reveal_strlit(". Available: ");
        let part = "'"@ + name + "' not found"@;
        assert(text =~= "Model "@ + part + (". Available: "@ + all));
        lemma_stands_between("Model "@, part, ". Available: "@ + all);
    }
    if 0 <= i < models.available.len() {
        let marked = marked_models(models.available, models.index);
        lemma_joined_holds(marked, "\n"@, i);
    }
}

} // verus!
