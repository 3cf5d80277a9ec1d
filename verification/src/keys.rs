//! Keyboard modifiers, resolved key codes and the table that resolves labels.
use crate::text::{chars_of, same};
use vstd::prelude::*;

verus! {

/// A set of keyboard modifiers, one bit each.
pub type Modifiers = u16;

pub const NONE: u16 = 0;

pub const SHIFT: u16 = 2;

pub const ALT: u16 = 4;

pub const CTRL: u16 = 8;

pub const SUPER: u16 = 16;

/// Whether every modifier of `part` is in `mods`.
pub open spec fn has_mods(mods: u16, part: u16) -> bool {
    mods & part == part
}

pub fn contains_mods(mods: Modifiers, part: Modifiers) -> (r: bool)
    ensures
        r == has_mods(mods, part),
{
    mods & part == part
}

/// A key as the window layer resolved it: `order` is its place in that layer's
/// ordering of keys, the same for equal keys only, and `glyph` the character
/// that a menu shows for it, where there is one.
#[derive(Clone, Copy, Debug, PartialEq, Eq, Structural)]
pub struct KeyCode {
    pub order: u64,
    pub glyph: Option<char>,
}

/// A key label and the code that it resolves to.
#[derive(Debug)]
pub struct KeyName {
    pub label: String,
    pub code: KeyCode,
}

/// The key codes of labels under the active key map preference.
///
/// A label of one character that is not listed stands for that character.
#[derive(Debug)]
pub struct KeyTable {
    pub names: Vec<KeyName>,
}

/// The code listed first for `label`.
pub open spec fn listed_code(names: Seq<KeyName>, label: Seq<char>) -> Option<KeyCode>
    decreases names.len(),
{
    if names.len() == 0 {
        None
    } else if names[0].label@ == label {
        Some(names[0].code)
    } else {
        listed_code(names.drop_first(), label)
    }
}

/// The code of a character key.
pub open spec fn char_key(c: char) -> KeyCode {
    KeyCode { order: c as u64, glyph: Some(c) }
}

impl KeyTable {
    /// Whether `label` names a key.
    pub open spec fn knows(self, label: Seq<char>) -> bool {
        label.len() == 1 || listed_code(self.names@, label) is Some
    }

    /// The key that `label` names.
    pub open spec fn code_of(self, label: Seq<char>) -> KeyCode {
        match listed_code(self.names@, label) {
            Some(code) => code,
            None => char_key(label[0]),
        }
    }

    /// Resolves a label that is known to name a key.
    pub fn resolve(&self, label: &str) -> (r: KeyCode)
        requires
            self.knows(label@),
        ensures
            r == self.code_of(label@),
    {
        let mut i: usize = 0;
        assert(self.names@.skip(0) =~= self.names@);
        while i < self.names.len()
            invariant
                i <= self.names.len(),
                listed_code(self.names@, label@) == listed_code(self.names@.skip(i as int), label@),
            decreases self.names.len() - i,
        {
            if same(self.names[i].label.as_str(), label) {
                return self.names[i].code;
            }
            assert(self.names@.skip(i as int).drop_first() =~= self.names@.skip(i + 1));
            i += 1;
        }
        let cs = chars_of(label);
        KeyCode { order: cs[0] as u64, glyph: Some(cs[0]) }
    }
}

} // verus!
