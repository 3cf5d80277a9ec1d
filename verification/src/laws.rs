//! What the operations of the library are for, stated of all their inputs.
//!
//! Each proof function here relates what goes into an operation to what comes
//! out of it, or two calls to each other.
use vstd::prelude::*;

pub mod bindings;
pub mod streaming;
pub mod prompts;
pub mod searches;
pub mod shells;
pub mod guards;
pub mod webs;
pub mod inputs;
pub mod chats;
pub mod windows;
pub mod events;
pub mod jobs;
pub mod displays;
pub mod texts;
pub mod menus;
pub mod catalogue;
pub mod bookkeeping;
pub mod reports;
pub mod providers;
pub mod toolbox;

verus! {

/// Whether `part` stands in `text` from `at` on, in one piece.
pub open spec fn stands_at(text: Seq<char>, part: Seq<char>, at: int) -> bool {
    0 <= at && at + part.len() <= text.len() && text.subrange(at, at + part.len()) == part
}

/// Whether `text` holds `part` in one piece.
pub open spec fn holds(text: Seq<char>, part: Seq<char>) -> bool {
    exists|at: int| #[trigger] stands_at(text, part, at)
}

/// Whether `text` holds `first` in one piece, and `second` behind it.
pub open spec fn holds_in_order(text: Seq<char>, first: Seq<char>, second: Seq<char>) -> bool {
    exists|a: int, b: int|
        #![trigger stands_at(text, first, a), stands_at(text, second, b)]
        stands_at(text, first, a) && stands_at(text, second, b) && a + first.len() <= b
}

pub(crate) proof fn lemma_stands_between(a: Seq<char>, part: Seq<char>, b: Seq<char>)
    ensures
        stands_at(a + part + b, part, a.len() as int),
        holds(a + part + b, part),
{
    assert((a + part + b).subrange(a.len() as int, (a.len() + part.len()) as int) =~= part);
    assert(stands_at(a + part + b, part, a.len() as int));
}

/// What a part of the text holds, the text holds.
pub(crate) proof fn lemma_held_in_part(text: Seq<char>, part: Seq<char>, inner: Seq<char>, at: int)
    requires
        stands_at(text, part, at),
        holds(part, inner),
    ensures
        holds(text, inner),
{
    let i = choose|i: int| #[trigger] stands_at(part, inner, i);
    assert(text.subrange(at + i, at + i + inner.len()) =~= part.subrange(i, i + inner.len()));
    assert(stands_at(text, inner, at + i));
}

} // verus!
