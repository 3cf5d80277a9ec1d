//! The input line of the chat: editing, undo, and the `@` and `/` pickers.
use crate::chat_prompt::{
    AttachmentOption, Skill, SlashOption, builtin_commands, label_text, offered, option_views,
    skill_commands, slash_command_options_for_token, slash_command_submits_immediately,
    submits_at_once,
};
use crate::text::{
    chars_of, is_space, is_whitespace, lowered, opt_view, same_ignoring_case, starts_with,
    string_of, string_of_range, to_ascii_lowercase, trim, trim_start_char, trimmed, without_start,
};
use vstd::prelude::*;
use vstd::string::*;

verus! {

/// Maximum number of (input, cursor) snapshots retained for Cmd+Z on the
/// input line. A single-line prompt rarely needs more; once the cap is hit
/// the oldest snapshot is dropped to keep memory bounded.
pub const INPUT_UNDO_MAX: usize = 32;

// ---------------------------------------------------------------------------
// Undo
// ---------------------------------------------------------------------------

#[derive(Debug)]
pub struct InputSnapshot {
    pub input: String,
    pub cursor: usize,
}

pub open spec fn snapshot_views(stack: Seq<InputSnapshot>) -> Seq<(Seq<char>, usize)> {
    stack.map_values(|s: InputSnapshot| (s.input@, s.cursor))
}

/// The stack after a snapshot: the oldest is dropped where the stack is full,
/// and an empty input leaves it as it is.
pub open spec fn pushed(stack: Seq<(Seq<char>, usize)>, input: Seq<char>, cursor: usize) -> Seq<
    (Seq<char>, usize),
> {
    if input.len() == 0 {
        stack
    } else if stack.len() >= INPUT_UNDO_MAX {
        stack.drop_first().push((input, cursor))
    } else {
        stack.push((input, cursor))
    }
}

/// Push `(input, cursor)` onto `stack` iff the input is non-empty. When the
/// stack reaches `INPUT_UNDO_MAX` the oldest entry is dropped FIFO so the
/// memory stays bounded while still retaining the most recent edits.
pub fn push_input_snapshot(stack: &mut Vec<InputSnapshot>, input: &str, cursor: usize)
    ensures
        snapshot_views(final(stack)@) == pushed(snapshot_views(old(stack)@), input@, cursor),
{
    if input.is_empty() {
        return;
    }
    let ghost before = snapshot_views(stack@);
    if stack.len() >= INPUT_UNDO_MAX {
        stack.remove(0);
        assert(snapshot_views(stack@) =~= before.drop_first());
    }
    let ghost mid = snapshot_views(stack@);
    stack.push(InputSnapshot { input: input.to_owned(), cursor });
    assert(snapshot_views(stack@) =~= mid.push((input@, cursor)));
}

/// What is snapshotted before an edit is what the next undo brings back.
pub proof fn undo_brings_back_the_snapshot(
    stack: Seq<(Seq<char>, usize)>,
    input: Seq<char>,
    cursor: usize,
)
    requires
        input.len() > 0,
    ensures
        pushed(stack, input, cursor).len() > 0,
        pushed(stack, input, cursor).last() == (input, cursor),
{
}

/// The undo stack stays within its bound, and its newest entry, which undo
/// restores, is the snapshot that was taken last. So an edit that takes a
/// snapshot first can be undone, unless the line was empty.
pub proof fn undo_stack_is_bounded(
    stack: Seq<(Seq<char>, usize)>,
    input: Seq<char>,
    cursor: usize,
)
    requires
        stack.len() <= INPUT_UNDO_MAX,
    ensures
        pushed(stack, input, cursor).len() <= INPUT_UNDO_MAX,
        input.len() > 0 ==> pushed(stack, input, cursor).last() == (input, cursor),
        input.len() > 0 && stack.len() < INPUT_UNDO_MAX ==> pushed(
            stack,
            input,
            cursor,
        ).drop_last() == stack,
{
    if input.len() > 0 && stack.len() < INPUT_UNDO_MAX {
        assert(pushed(stack, input, cursor).drop_last() =~= stack);
    }
}

// ---------------------------------------------------------------------------
// Tokens
// ---------------------------------------------------------------------------

/// Where the word that ends at `at` starts.
pub open spec fn word_start(s: Seq<char>, at: int) -> int
    decreases at,
{
    if at <= 0 || at > s.len() || is_space(s[at - 1]) {
        at
    } else {
        word_start(s, at - 1)
    }
}

/// Where the word that starts at `at` ends.
pub open spec fn word_end(s: Seq<char>, at: int) -> int
    decreases s.len() - at,
{
    if at < 0 || at >= s.len() || is_space(s[at]) {
        at
    } else {
        word_end(s, at + 1)
    }
}

proof fn lemma_word_bounds(s: Seq<char>, at: int)
    requires
        0 <= at <= s.len(),
    ensures
        0 <= word_start(s, at) <= at,
    decreases at,
{
    if at > 0 && !is_space(s[at - 1]) {
        lemma_word_bounds(s, at - 1);
    }
}

proof fn lemma_word_end_bounds(s: Seq<char>, at: int)
    requires
        0 <= at <= s.len(),
    ensures
        at <= word_end(s, at) <= s.len(),
    decreases s.len() - at,
{
    if at < s.len() && !is_space(s[at]) {
        lemma_word_end_bounds(s, at + 1);
    }
}

/// The word at the cursor, with its bounds, where it starts with `prefix`.
pub open spec fn token_at(s: Seq<char>, cursor: int, prefix: char) -> Option<(int, int)> {
    let start = word_start(s, cursor);
    let end = word_end(s, cursor);
    if cursor > s.len() || start == end || s[start] != prefix {
        None
    } else {
        Some((start, end))
    }
}

/// Whether an attachment is offered for what was typed.
pub open spec fn attachment_offered(option: AttachmentOption, token: Seq<char>) -> bool {
    let query = lowered(without_start(token, '@'));
    query.len() == 0 || query.is_prefix_of(label_text(option).drop_first()) || lowered(
        label_text(option),
    ) == lowered(token)
}

/// The attachments that can be offered: the selection only where there is one.
pub open spec fn attachments_available(has_selection: bool) -> Seq<AttachmentOption> {
    if has_selection {
        seq![AttachmentOption::Cwd, AttachmentOption::Tab, AttachmentOption::Selection]
    } else {
        seq![AttachmentOption::Cwd, AttachmentOption::Tab]
    }
}

/// The attachments of a list that are offered, in order.
pub open spec fn attachments_offered(list: Seq<AttachmentOption>, token: Seq<char>) -> Seq<
    AttachmentOption,
>
    decreases list.len(),
{
    if list.len() == 0 {
        seq![]
    } else {
        let before = attachments_offered(list.drop_last(), token);
        if attachment_offered(list.last(), token) {
            before.push(list.last())
        } else {
            before
        }
    }
}

/// `char::is_control`: the characters of the general category `Cc`.
pub open spec fn is_control_char(c: char) -> bool {
    let u = c as u32;
    u <= 0x1f || (0x7f <= u && u <= 0x9f)
}

/// What is kept of pasted text: line ends become line feeds, other control
/// characters are dropped.
pub open spec fn pasted(s: Seq<char>) -> Seq<char>
    decreases s.len(),
{
    if s.len() == 0 {
        seq![]
    } else {
        let before = pasted(s.drop_last());
        let c = s.last();
        if c == '\r' || c == '\n' {
            before.push('\n')
        } else if is_control_char(c) {
            before
        } else {
            before.push(c)
        }
    }
}

fn normalize_paste(text: &str) -> (r: Vec<char>)
    ensures
        r@ == pasted(text@),
{
    let cs = chars_of(text);
    let mut out: Vec<char> = Vec::new();
    let mut i: usize = 0;
    while i < cs.len()
        invariant
            i <= cs.len(),
            cs@ == text@,
            out@ == pasted(text@.take(i as int)),
        decreases cs.len() - i,
    {
        let c = cs[i];
        assert(text@.take(i + 1).drop_last() =~= text@.take(i as int));
        assert(text@.take(i + 1).last() == c);
        let u: u32 = c as u32;
        if c == '\r' || c == '\n' {
            out.push('\n');
        } else if !(u <= 0x1f || (0x7f <= u && u <= 0x9f)) {
            out.push(c);
        }
        i += 1;
    }
    assert(text@.take(i as int) =~= text@);
    out
}

// ---------------------------------------------------------------------------
// The line
// ---------------------------------------------------------------------------

/// The input line.
#[derive(Debug)]
pub struct InputLine {
    pub input: String,
    /// The cursor, in characters.
    pub cursor: usize,
    /// Undo stack for destructive edits on the input line. Plain typing and
    /// single-char Backspace do not push, so every Cmd+Z restores something
    /// meaningful.
    pub undo: Vec<InputSnapshot>,
    /// The selection of the `@` and `/` pickers. A token cannot start with
    /// both, so they share it.
    pub picker_index: usize,
}

pub open spec fn snapshot_fits(s: (Seq<char>, usize)) -> bool {
    s.1 <= s.0.len()
}

/// The text with the characters `start..end` replaced.
pub open spec fn spliced(s: Seq<char>, start: int, end: int, with: Seq<char>) -> Seq<char> {
    s.take(start) + with + s.skip(end)
}

/// Where the picker goes from `index` by `delta`, round and round.
pub open spec fn rotated(index: int, len: int, delta: int) -> int {
    let current = if index > isize::MAX {
        0
    } else if index < len {
        index
    } else {
        len - 1
    };
    (current + delta) % len
}

impl InputLine {
    /// The cursor is in the text, and the same holds of every snapshot, of
    /// which there are not too many.
    pub open spec fn wf(self) -> bool {
        &&& self.cursor <= self.input@.len()
        &&& self.undo.len() <= INPUT_UNDO_MAX
        &&& forall|i: int|
            0 <= i < self.undo.len() ==> snapshot_fits(#[trigger] snapshot_views(self.undo@)[i])
    }

    pub fn new() -> (r: InputLine)
        ensures
            r.wf(),
            r.input@ == Seq::<char>::empty(),
            r.cursor == 0,
            r.undo.len() == 0,
            r.picker_index == 0,
    {
        InputLine { input: String::new(), cursor: 0, undo: Vec::new(), picker_index: 0 }
    }

    /// Push the current (input, cursor) onto the undo stack before a
    /// destructive edit. Empty inputs are skipped to avoid polluting the
    /// stack with no-op restorations; when the cap is reached the oldest
    /// snapshot is dropped FIFO.
    pub fn snapshot_input_for_undo(&mut self)
        requires
            old(self).wf(),
        ensures
            final(self).wf(),
            final(self).input == old(self).input,
            final(self).cursor == old(self).cursor,
            final(self).picker_index == old(self).picker_index,
            snapshot_views(final(self).undo@) == pushed(
                snapshot_views(old(self).undo@),
                old(self).input@,
                old(self).cursor,
            ),
    {
        let ghost before = snapshot_views(self.undo@);
        let cursor: usize = self.cursor;
        let input = self.input.clone();
        push_input_snapshot(&mut self.undo, input.as_str(), cursor);
        proof {
            let after = snapshot_views(self.undo@);
            undo_stack_is_bounded(before, input@, cursor);
            assert(after.len() == self.undo.len());
            assert forall|i: int| 0 <= i < after.len() implies snapshot_fits(
                #[trigger] after[i],
            ) by {
                if input@.len() > 0 && before.len() >= INPUT_UNDO_MAX && i < after.len() - 1 {
                    assert(after[i] == before[i + 1]);
                } else if i < before.len() {
                    assert(after[i] == before[i] || i == after.len() - 1);
                }
            }
        }
    }

    /// Pop the most recent snapshot and restore it. Returns true when
    /// anything was restored; false when the stack was empty.
    pub fn undo_input(&mut self) -> (r: bool)
        requires
            old(self).wf(),
        ensures
            final(self).wf(),
            r == (old(self).undo.len() > 0),
            r ==> final(self).input@ == snapshot_views(old(self).undo@).last().0
                && final(self).cursor == snapshot_views(old(self).undo@).last().1
                && final(self).picker_index == 0 && snapshot_views(final(self).undo@)
                == snapshot_views(old(self).undo@).drop_last(),
            !r ==> *final(self) == *old(self),
    {
        if self.undo.len() == 0 {
            return false;
        }
        let ghost before = snapshot_views(self.undo@);
        match self.undo.pop() {
            Some(snap) => {
                assert(snapshot_fits(before[before.len() - 1]));
                self.input = snap.input;
                self.cursor = snap.cursor;
                self.picker_index = 0;
                assert(snapshot_views(self.undo@) =~= before.drop_last());
                assert forall|i: int| 0 <= i < self.undo.len() implies snapshot_fits(
                    #[trigger] snapshot_views(self.undo@)[i],
                ) by {
                    assert(snapshot_fits(before[i]));
                }
                true
            },
            None => false,
        }
    }

    /// Return the (char-start, char-end, token) span of the word at the
    /// cursor if it starts with `prefix`. Used by both the `@` attachment
    /// picker and the `/` slash picker.
    pub fn current_token_query(&self, prefix: char) -> (r: Option<(usize, usize, String)>)
        ensures
            match token_at(self.input@, self.cursor as int, prefix) {
                None => r is None,
                Some((start, end)) => r matches Some((a, b, token)) && a == start && b == end
                    && start < end <= self.input@.len() && 0 <= start && token@
                    == self.input@.subrange(start, end),
            },
    {
        let cs = chars_of(self.input.as_str());
        let ghost s = self.input@;
        if self.cursor > cs.len() {
            return None;
        }
        let mut start: usize = self.cursor;
        while start > 0 && !is_whitespace(cs[start - 1])
            invariant
                start <= self.cursor <= cs.len(),
                cs@ == s,
                s == self.input@,
                word_start(s, self.cursor as int) == word_start(s, start as int),
            decreases start,
        {
            start -= 1;
        }
        let mut end: usize = self.cursor;
        while end < cs.len() && !is_whitespace(cs[end])
            invariant
                self.cursor <= end <= cs.len(),
                cs@ == s,
                s == self.input@,
                word_end(s, self.cursor as int) == word_end(s, end as int),
            decreases cs.len() - end,
        {
            end += 1;
        }
        if start == end || cs[start] != prefix {
            return None;
        }
        let token = string_of_range(&cs, start, end);
        Some((start, end, token))
    }

    pub fn current_attachment_query(&self) -> (r: Option<(usize, usize, String)>)
        ensures
            match token_at(self.input@, self.cursor as int, '@') {
                None => r is None,
                Some((start, end)) => r matches Some((a, b, token)) && a == start && b == end
                    && start < end <= self.input@.len() && 0 <= start && token@
                    == self.input@.subrange(start, end),
            },
    {
        self.current_token_query('@')
    }

    pub fn current_slash_query(&self) -> (r: Option<(usize, usize, String)>)
        ensures
            match token_at(self.input@, self.cursor as int, '/') {
                None => r is None,
                Some((start, end)) => r matches Some((a, b, token)) && a == start && b == end
                    && start < end <= self.input@.len() && 0 <= start && token@
                    == self.input@.subrange(start, end),
            },
    {
        self.current_token_query('/')
    }

    /// The attachments that the picker shows.
    pub open spec fn attachment_choices(self, has_selection: bool) -> Seq<AttachmentOption> {
        match token_at(self.input@, self.cursor as int, '@') {
            None => seq![],
            Some((start, end)) => attachments_offered(
                attachments_available(has_selection),
                self.input@.subrange(start, end),
            ),
        }
    }

    pub fn attachment_picker_options(&self, selected_text: &str) -> (r: Vec<AttachmentOption>)
        ensures
            r@ == self.attachment_choices(trimmed(selected_text@).len() > 0),
    {
        let mut out: Vec<AttachmentOption> = Vec::new();
        let (_, _, token) = match self.current_attachment_query() {
            Some(q) => q,
            None => {
                assert(out@ =~= seq![]);
                return out;
            },
        };
        let query = to_ascii_lowercase(trim_start_char(token.as_str(), '@').as_str());
        let has_selection = !trim(selected_text).as_str().is_empty();
        let all = available_attachment_options(has_selection);
        let ghost list = attachments_available(has_selection);
        let mut i: usize = 0;
        while i < all.len()
            invariant
                i <= all.len(),
                all@ == list,
                query@ == lowered(without_start(token@, '@')),
                out@ == attachments_offered(list.take(i as int), token@),
            decreases all.len() - i,
        {
            proof {
                assert(list.take(i + 1).drop_last() =~= list.take(i as int));
                assert(list.take(i + 1).last() == all@[i as int]);
            }
            if is_attachment_offered(all[i], token.as_str(), query.as_str()) {
                out.push(all[i]);
            }
            i += 1;
        }
        assert(list.take(i as int) =~= list);
        out
    }

    /// The commands that the picker shows.
    pub open spec fn slash_choices(self, skills: Seq<Skill>) -> Seq<(Seq<char>, Seq<char>)> {
        match token_at(self.input@, self.cursor as int, '/') {
            None => seq![],
            Some((start, end)) => offered(
                builtin_commands() + skill_commands(skills),
                self.input@.subrange(start, end),
            ),
        }
    }

    pub fn slash_picker_options(&self, skills: &Vec<Skill>) -> (r: Vec<SlashOption>)
        requires
            forall|i: int| 0 <= i < skills.len() ==> (#[trigger] skills@[i]).command@.len() > 0,
        ensures
            option_views(r@) == self.slash_choices(skills@),
    {
        match self.current_slash_query() {
            Some((_, _, token)) => slash_command_options_for_token(token.as_str(), skills),
            None => {
                let r: Vec<SlashOption> = Vec::new();
                assert(option_views(r@) =~= seq![]);
                r
            },
        }
    }

    /// Rotate the picker selection; false where there is nothing to select.
    pub fn move_picker_index(&mut self, len: usize, delta: isize) -> (r: bool)
        requires
            old(self).wf(),
            len <= isize::MAX,
        ensures
            final(self).wf(),
            final(self).input == old(self).input,
            final(self).cursor == old(self).cursor,
            final(self).undo == old(self).undo,
            r == (len > 0),
            final(self).picker_index == if len == 0 {
                0
            } else {
                rotated(old(self).picker_index as int, len as int, delta as int)
            },
            len > 0 ==> final(self).picker_index < len,
    {
        if len == 0 {
            self.picker_index = 0;
            return false;
        }
        let index: usize = self.picker_index;
        let current: i128 = if index > isize::MAX as usize {
            0
        } else if index < len {
            index as i128
        } else {
            len as i128 - 1
        };
        let sum: i128 = current + delta as i128;
        let n: i128 = len as i128;
        let rest: i128 = if sum >= 0 {
            sum % n
        } else {
            let back: i128 = (-sum) % n;
            if back == 0 {
                0
            } else {
                n - back
            }
        };
        proof {
            if sum < 0 {
                let q = (-sum) / (n as int);
                let b = (-sum) % (n as int);
                assert(-sum == q * n + b) by (nonlinear_arith)
                    requires
                        q == (-sum) / (n as int),
                        b == (-sum) % (n as int),
                        n > 0,
                ;
                if b == 0 {
                    assert(sum == (-q) * n + 0) by (nonlinear_arith)
                        requires
                            -sum == q * n + b,
                            b == 0,
                    ;
                    vstd::arithmetic::div_mod::lemma_fundamental_div_mod_converse(
                        sum as int,
                        n as int,
                        -q,
                        0,
                    );
                } else {
                    assert(sum == (-q - 1) * n + (n - b)) by (nonlinear_arith)
                        requires
                            -sum == q * n + b,
                    ;
                    vstd::arithmetic::div_mod::lemma_fundamental_div_mod_converse(
                        sum as int,
                        n as int,
                        -q - 1,
                        n - b,
                    );
                }
            }
            assert(rest == sum as int % n as int);
            assert(0 <= rest < n);
        }
        self.picker_index = rest as usize;
        true
    }

    /// Replaces the token `start..end`, with a snapshot for undo, and puts the
    /// cursor behind the replacement.
    pub fn replace_token(&mut self, start: usize, end: usize, replacement: &str)
        requires
            old(self).wf(),
            start <= end <= old(self).input@.len(),
        ensures
            final(self).wf(),
            final(self).input@ == spliced(
                old(self).input@,
                start as int,
                end as int,
                replacement@,
            ),
            final(self).cursor == start + replacement@.len(),
            final(self).picker_index == old(self).picker_index,
            snapshot_views(final(self).undo@) == pushed(
                snapshot_views(old(self).undo@),
                old(self).input@,
                old(self).cursor,
            ),
    {
        self.snapshot_input_for_undo();
        let cs = chars_of(self.input.as_str());
        let new = chars_of(replacement);
        let mut out = string_of_range(&cs, 0, start);
        out.append(replacement);
        out.append(string_of_range(&cs, end, cs.len()).as_str());
        assert(out@ =~= spliced(old(self).input@, start as int, end as int, replacement@));
        proof {
            assert(out@.len() >= start + new.len());
        }
        let back = chars_of(out.as_str());
        self.input = out;
        self.cursor = start + back_len(&back, start, new.len());
        let ghost u = snapshot_views(self.undo@);
        assert(forall|i: int| 0 <= i < self.undo.len() ==> snapshot_fits(#[trigger] u[i]));
    }

    /// Puts the cursor behind a space, which is inserted where none follows.
    pub fn ensure_space_after_cursor(&mut self)
        requires
            old(self).wf(),
        ensures
            final(self).wf(),
            final(self).undo == old(self).undo,
            final(self).picker_index == old(self).picker_index,
            final(self).cursor == old(self).cursor + 1,
            ({
                let s = old(self).input@;
                let at = old(self).cursor as int;
                final(self).input@ == if at < s.len() && is_space(s[at]) {
                    s
                } else {
                    s.insert(at, ' ')
                }
            }),
    {
        let cs = chars_of(self.input.as_str());
        let at: usize = self.cursor;
        if !(at < cs.len() && is_whitespace(cs[at])) {
            let mut out = cs;
            let ghost s = self.input@;
            out.insert(at, ' ');
            self.input = string_of(&out);
            assert(self.input@ =~= s.insert(at as int, ' '));
            self.cursor = next_index(&out, at);
        } else {
            self.cursor = next_index(&cs, at);
        }
    }

    /// Moves the attachment picker.
    pub fn move_attachment_picker(&mut self, delta: isize, selected_text: &str) -> (r: bool)
        requires
            old(self).wf(),
        ensures
            final(self).wf(),
            final(self).input == old(self).input,
            final(self).cursor == old(self).cursor,
            final(self).undo == old(self).undo,
            ({
                let n = old(self).attachment_choices(trimmed(selected_text@).len() > 0).len();
                &&& r == (n > 0)
                &&& final(self).picker_index == if n == 0 {
                    0
                } else {
                    rotated(old(self).picker_index as int, n as int, delta as int)
                }
            }),
    {
        let options = self.attachment_picker_options(selected_text);
        proof {
            lemma_few_attachments(
                attachments_available(trimmed(selected_text@).len() > 0),
                match token_at(self.input@, self.cursor as int, '@') {
                    Some((a, b)) => self.input@.subrange(a, b),
                    None => seq![],
                },
            );
        }
        let len: usize = options.len();
        self.move_picker_index(len, delta)
    }

    /// Takes the selected attachment into the input; false where there is none.
    pub fn accept_attachment_picker(&mut self, selected_text: &str) -> (r: bool)
        requires
            old(self).wf(),
        ensures
            final(self).wf(),
            final(self).picker_index == 0,
            ({
                let options = old(self).attachment_choices(trimmed(selected_text@).len() > 0);
                let s = old(self).input@;
                match token_at(s, old(self).cursor as int, '@') {
                    None => !r && final(self).input == old(self).input && final(self).cursor
                        == old(self).cursor && final(self).undo == old(self).undo,
                    Some((start, end)) => if options.len() == 0 {
                        !r && final(self).input == old(self).input && final(self).cursor
                            == old(self).cursor && final(self).undo == old(self).undo
                    } else {
                        let label = label_text(
                            options[picked(old(self).picker_index as int, options.len() as int)],
                        );
                        let text = if end < s.len() && is_space(s[end]) {
                            label
                        } else {
                            label.push(' ')
                        };
                        &&& r
                        &&& final(self).input@ == spliced(s, start, end, text)
                        &&& final(self).cursor == start + text.len()
                        &&& snapshot_views(final(self).undo@) == pushed(
                            snapshot_views(old(self).undo@),
                            s,
                            old(self).cursor,
                        )
                    },
                }
            }),
    {
        let options = self.attachment_picker_options(selected_text);
        if options.len() == 0 {
            self.picker_index = 0;
            return false;
        }
        let (start, end, _) = match self.current_attachment_query() {
            Some(q) => q,
            None => {
                self.picker_index = 0;
                return false;
            },
        };
        let index: usize = if self.picker_index < options.len() {
            self.picker_index
        } else {
            options.len() - 1
        };
        let mut replacement = options[index].label().to_owned();
        let cs = chars_of(self.input.as_str());
        if !(end < cs.len() && is_whitespace(cs[end])) {
            replacement.push(' ');
        }
        self.replace_token(start, end, replacement.as_str());
        self.picker_index = 0;
        true
    }

    /// Moves the slash picker.
    pub fn move_slash_picker(&mut self, delta: isize, skills: &Vec<Skill>) -> (r: bool)
        requires
            old(self).wf(),
            forall|i: int| 0 <= i < skills.len() ==> (#[trigger] skills@[i]).command@.len() > 0,
            builtin_commands().len() + skills.len() <= isize::MAX,
        ensures
            final(self).wf(),
            final(self).input == old(self).input,
            final(self).cursor == old(self).cursor,
            final(self).undo == old(self).undo,
            ({
                let n = old(self).slash_choices(skills@).len();
                &&& r == (n > 0)
                &&& final(self).picker_index == if n == 0 {
                    0
                } else {
                    rotated(old(self).picker_index as int, n as int, delta as int)
                }
            }),
    {
        let options = self.slash_picker_options(skills);
        proof {
            lemma_offered_len(
                builtin_commands() + skill_commands(skills@),
                match token_at(self.input@, self.cursor as int, '/') {
                    Some((a, b)) => self.input@.subrange(a, b),
                    None => seq![],
                },
            );
            assert(option_views(options@).len() == options@.len());
        }
        let len: usize = options.len();
        self.move_picker_index(len, delta)
    }

    /// The command that the picker has selected.
    pub fn selected_slash_command(&self, skills: &Vec<Skill>) -> (r: Option<String>)
        requires
            forall|i: int| 0 <= i < skills.len() ==> (#[trigger] skills@[i]).command@.len() > 0,
        ensures
            ({
                let options = self.slash_choices(skills@);
                opt_view(r) == if options.len() == 0 {
                    None
                } else {
                    Some(options[picked(self.picker_index as int, options.len() as int)].0)
                }
            }),
    {
        let options = self.slash_picker_options(skills);
        assert(option_views(options@).len() == options@.len());
        if options.len() == 0 {
            return None;
        }
        let index: usize = if self.picker_index < options.len() {
            self.picker_index
        } else {
            options.len() - 1
        };
        Some(options[index].label.clone())
    }

    /// Takes the selected command into the input; false where there is none.
    /// Commands that wait for a question get a space behind them.
    pub fn accept_slash_picker(&mut self, skills: &Vec<Skill>) -> (r: bool)
        requires
            old(self).wf(),
            forall|i: int| 0 <= i < skills.len() ==> (#[trigger] skills@[i]).command@.len() > 0,
        ensures
            final(self).wf(),
            final(self).picker_index == 0,
            ({
                let options = old(self).slash_choices(skills@);
                let s = old(self).input@;
                match token_at(s, old(self).cursor as int, '/') {
                    None => !r && final(self).input == old(self).input && final(self).cursor
                        == old(self).cursor && final(self).undo == old(self).undo,
                    Some((start, end)) => if options.len() == 0 {
                        !r && final(self).input == old(self).input && final(self).cursor
                            == old(self).cursor && final(self).undo == old(self).undo
                    } else {
                        let label = options[picked(
                            old(self).picker_index as int,
                            options.len() as int,
                        )].0;
                        let taken = spliced(s, start, end, label);
                        let at = start + label.len();
                        &&& r
                        &&& snapshot_views(final(self).undo@) == pushed(
                            snapshot_views(old(self).undo@),
                            s,
                            old(self).cursor,
                        )
                        &&& if submits_at_once(label) {
                            final(self).input@ == taken && final(self).cursor == at
                        } else {
                            final(self).cursor == at + 1 && final(self).input@ == if at
                                < taken.len() && is_space(taken[at]) {
                                taken
                            } else {
                                taken.insert(at, ' ')
                            }
                        }
                    },
                }
            }),
    {
        let options = self.slash_picker_options(skills);
        assert(option_views(options@).len() == options@.len());
        if options.len() == 0 {
            self.picker_index = 0;
            return false;
        }
        let (start, end, _) = match self.current_slash_query() {
            Some(q) => q,
            None => {
                self.picker_index = 0;
                return false;
            },
        };
        let index: usize = if self.picker_index < options.len() {
            self.picker_index
        } else {
            options.len() - 1
        };
        let label = options[index].label.as_str();
        assert(option_views(options@)[index as int].0 == label@);
        self.replace_token(start, end, label);
        if !slash_command_submits_immediately(label) {
            self.ensure_space_after_cursor();
        }
        self.picker_index = 0;
        true
    }

    /// Inserts pasted text at the cursor, with a snapshot for undo. Returns
    /// whether there was anything to insert.
    pub fn paste(&mut self, text: &str) -> (r: bool)
        requires
            old(self).wf(),
        ensures
            final(self).wf(),
            r == (pasted(text@).len() > 0),
            !r ==> *final(self) == *old(self),
            r ==> {
                let at = old(self).cursor as int;
                &&& final(self).input@ == spliced(old(self).input@, at, at, pasted(text@))
                &&& final(self).cursor == at + pasted(text@).len()
                &&& final(self).picker_index == 0
                &&& snapshot_views(final(self).undo@) == pushed(
                    snapshot_views(old(self).undo@),
                    old(self).input@,
                    old(self).cursor,
                )
            },
    {
        let normalized = normalize_paste(text);
        if normalized.len() == 0 {
            return false;
        }
        let insert = string_of(&normalized);
        let at: usize = self.cursor;
        self.replace_token(at, at, insert.as_str());
        self.picker_index = 0;
        true
    }

    /// Empties the line once it is submitted.
    pub fn clear(&mut self)
        requires
            old(self).wf(),
        ensures
            final(self).wf(),
            final(self).input@ == Seq::<char>::empty(),
            final(self).cursor == 0,
            final(self).undo == old(self).undo,
            final(self).picker_index == old(self).picker_index,
    {
        self.input = String::new();
        self.cursor = 0;
    }
}

/// The entry that a picker has selected: the last one where the selection is
/// past the end.
pub open spec fn picked(index: int, len: int) -> int {
    if index < len {
        index
    } else {
        len - 1
    }
}

fn back_len(all: &Vec<char>, start: usize, n: usize) -> (r: usize)
    requires
        start + n <= all.len(),
    ensures
        r == n,
        start + r <= usize::MAX,
{
    n
}

fn next_index(all: &Vec<char>, at: usize) -> (r: usize)
    requires
        at < all.len(),
    ensures
        r == at + 1,
{
    at + 1
}

fn is_attachment_offered(option: AttachmentOption, token: &str, query: &str) -> (r: bool)
    requires
        query@ == lowered(without_start(token@, '@')),
    ensures
        r == attachment_offered(option, token@),
{
    let label = option.label();
    let cs = chars_of(label);
    proof {
        reveal_strlit("@cwd");
        reveal_strlit("@tab");
        reveal_strlit("@selection");
    }
    let rest = string_of_range(&cs, 1, cs.len());
    assert(rest@ =~= label@.drop_first());
    query.is_empty() || starts_with(rest.as_str(), query) || same_ignoring_case(label, token)
}

/// The attachments that can be offered.
pub fn available_attachment_options(has_selection: bool) -> (r: Vec<AttachmentOption>)
    ensures
        r@ == attachments_available(has_selection),
{
    let mut options: Vec<AttachmentOption> = Vec::new();
    options.push(AttachmentOption::Cwd);
    options.push(AttachmentOption::Tab);
    if has_selection {
        options.push(AttachmentOption::Selection);
    }
    assert(options@ =~= attachments_available(has_selection));
    options
}

proof fn lemma_few_attachments(list: Seq<AttachmentOption>, token: Seq<char>)
    ensures
        attachments_offered(list, token).len() <= list.len(),
    decreases list.len(),
{
    if list.len() > 0 {
        lemma_few_attachments(list.drop_last(), token);
    }
}

proof fn lemma_offered_len(list: Seq<(Seq<char>, Seq<char>)>, token: Seq<char>)
    ensures
        offered(list, token).len() <= list.len(),
    decreases list.len(),
{
    if list.len() > 0 {
        lemma_offered_len(list.drop_last(), token);
    }
}

// ---------------------------------------------------------------------------
// Laws
// ---------------------------------------------------------------------------

/// The word at the cursor is bounded by white space or the ends of the text,
/// and holds no white space.
pub proof fn tokens_are_whole_words(s: Seq<char>, cursor: int, prefix: char)
    requires
        0 <= cursor <= s.len(),
        token_at(s, cursor, prefix) is Some,
    ensures
        ({
            let (start, end) = token_at(s, cursor, prefix)->0;
            &&& 0 <= start <= cursor <= end <= s.len()
            &&& start < end
            &&& s[start] == prefix
            &&& start == 0 || is_space(s[start - 1])
            &&& end == s.len() || is_space(s[end])
            &&& forall|k: int| start <= k < end ==> !is_space(#[trigger] s[k])
        }),
{
    lemma_word_bounds(s, cursor);
    lemma_word_end_bounds(s, cursor);
    lemma_word_start_stops(s, cursor);
    lemma_word_end_stops(s, cursor);
}

proof fn lemma_word_start_stops(s: Seq<char>, at: int)
    requires
        0 <= at <= s.len(),
    ensures
        word_start(s, at) == 0 || is_space(s[word_start(s, at) - 1]),
        forall|k: int| word_start(s, at) <= k < at ==> !is_space(#[trigger] s[k]),
    decreases at,
{
    if at > 0 && !is_space(s[at - 1]) {
        lemma_word_start_stops(s, at - 1);
    }
}

proof fn lemma_word_end_stops(s: Seq<char>, at: int)
    requires
        0 <= at <= s.len(),
    ensures
        word_end(s, at) == s.len() || is_space(s[word_end(s, at)]),
        forall|k: int| at <= k < word_end(s, at) ==> !is_space(#[trigger] s[k]),
    decreases s.len() - at,
{
    if at < s.len() && !is_space(s[at]) {
        lemma_word_end_stops(s, at + 1);
    }
}

} // verus!
