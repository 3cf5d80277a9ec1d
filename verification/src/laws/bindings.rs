//! Default key bindings: which chords a command is bound to.
use crate::commands::{chord_forms, permuted, shifted_char, shifted_label};
use crate::keys::{ALT, CTRL, KeyCode, KeyTable, SHIFT, SUPER, has_mods, listed_code};
use vstd::prelude::*;
use vstd::string::*;

verus! {

/// Whether a chord that was pressed, with these modifiers and this key, is one
/// under which a default chord can present itself. The default chord has the
/// modifiers `mods`; `plain` is its key, `shifted` the key that SHIFT makes of
/// it.
///
/// A chord always stands for itself. One with SHIFT also comes with the shifted
/// key, whether SHIFT is reported or was used up in making that key. One with
/// SUPER alone also comes with CTRL and SHIFT in the place of SUPER, in the same
/// three ways.
pub open spec fn presents(
    m: u16,
    k: KeyCode,
    mods: u16,
    plain: KeyCode,
    shifted: KeyCode,
) -> bool {
    ||| m == mods && k == plain
    ||| mods != SUPER && has_mods(mods, SHIFT) && (m == mods || m == without_shift(mods)) && k
        == shifted && shifted != plain
    ||| mods == SUPER && m == (CTRL | SHIFT) && (k == plain || k == shifted)
    ||| mods == SUPER && m == CTRL && k == shifted && shifted != plain
}

/// A set of modifiers that has SHIFT, without it.
pub open spec fn without_shift(mods: u16) -> u16 {
    (mods - SHIFT) as u16
}

proof fn lemma_without_shift(mods: u16)
    requires
        has_mods(mods, SHIFT),
    ensures
        mods & !SHIFT == without_shift(mods),
        !has_mods(without_shift(mods), SHIFT),
        forall|other: u16|
            other & SHIFT == 0 ==> has_mods(without_shift(mods), other) == has_mods(mods, other),
{
    assert(mods & 2 == 2 ==> mods >= 2 && mods & !2 == ((mods - 2) as u16) && ((mods - 2) as u16) & 2 != 2)
        by (bit_vector);
    assert forall|other: u16| other & SHIFT == 0 implies has_mods(without_shift(mods), other)
        == has_mods(mods, other) by {
        assert(mods & 2 == 2 && other & 2 == 0 ==> (((mods - 2) as u16) & other == other <==> mods & other
            == other)) by (bit_vector);
    }
}

proof fn lemma_forms(mods: u16, plain: KeyCode, shifted: KeyCode, m: u16, k: KeyCode)
    ensures
        chord_forms(mods, plain, shifted).contains((m, k)) <==> presents(
            m,
            k,
            mods,
            plain,
            shifted,
        ),
{
    if has_mods(mods, SHIFT) {
        lemma_without_shift(mods);
    }
    let forms = chord_forms(mods, plain, shifted);
    if forms.contains((m, k)) {
        let i = choose|i: int| 0 <= i < forms.len() && forms[i] == (m, k);
        assert(i == 0 || i == 1 || i == 2 || i == 3);
    }
    if presents(m, k, mods, plain, shifted) {
        assert(forms[0] == (m, k) || forms[1] == (m, k) || forms[2] == (m, k) || forms[3] == (
            m,
            k,
        ));
    }
}

/// Whether a chord of a command can present itself as this one.
pub open spec fn chord_presents(
    m: u16,
    k: KeyCode,
    chord: (u16, Seq<char>),
    table: KeyTable,
) -> bool {
    presents(m, k, chord.0, table.code_of(chord.1), table.code_of(shifted_label(chord.1)))
}

/// A command is bound to exactly the forms of its default chords: each form of
/// each chord, and nothing else.
pub proof fn commands_are_bound_to_the_forms_of_their_chords(
    keys: Seq<(u16, Seq<char>)>,
    table: KeyTable,
    m: u16,
    k: KeyCode,
)
    ensures
        permuted(keys, table).contains((m, k)) <==> exists|i: int|
            0 <= i < keys.len() && chord_presents(m, k, #[trigger] keys[i], table),
    decreases keys.len(),
{
    if keys.len() > 0 {
        let rest = keys.drop_last();
        let last = keys.last();
        commands_are_bound_to_the_forms_of_their_chords(rest, table, m, k);
        let before = permuted(rest, table);
        let forms = chord_forms(
            last.0,
            table.code_of(last.1),
            table.code_of(shifted_label(last.1)),
        );
        lemma_forms(last.0, table.code_of(last.1), table.code_of(shifted_label(last.1)), m, k);
        let all = permuted(keys, table);
        assert(all == before + forms);
        assert(presents(
            m,
            k,
            last.0,
            table.code_of(last.1),
            table.code_of(shifted_label(last.1)),
        ) == forms.contains((m, k)));
        if all.contains((m, k)) {
            let i = choose|i: int| 0 <= i < all.len() && all[i] == (m, k);
            if i < before.len() {
                assert(before[i] == (m, k));
                let j = choose|j: int|
                    0 <= j < rest.len() && chord_presents(m, k, #[trigger] rest[j], table);
                assert(chord_presents(m, k, keys[j], table));
            } else {
                assert(forms[i - before.len()] == (m, k));
                assert(chord_presents(m, k, keys[keys.len() - 1], table));
            }
        }
        if exists|i: int| 0 <= i < keys.len() && chord_presents(m, k, #[trigger] keys[i], table) {
            let i = choose|i: int|
                0 <= i < keys.len() && chord_presents(m, k, #[trigger] keys[i], table);
            if i < rest.len() {
                assert(chord_presents(m, k, rest[i], table));
                let j = choose|j: int| 0 <= j < before.len() && before[j] == (m, k);
                assert(all[j] == (m, k));
            } else {
                let j = choose|j: int| 0 <= j < forms.len() && forms[j] == (m, k);
                assert(all[before.len() + j] == (m, k));
            }
        }
    } else {
        assert(permuted(keys, table) =~= seq![]);
    }
}

/// A chord with SHIFT is never bound without SHIFT under its plain key: the form
/// without SHIFT carries the shifted key, and it is there wherever that is
/// another key. No other modifier is lost.
pub proof fn shift_is_dropped_only_with_the_shifted_key(
    chord: (u16, Seq<char>),
    table: KeyTable,
    m: u16,
    k: KeyCode,
)
    requires
        has_mods(chord.0, SHIFT),
    ensures
        permuted(seq![chord], table).contains((m, k)) && !has_mods(m, SHIFT) ==> k
            == table.code_of(shifted_label(chord.1)) && k != table.code_of(chord.1),
        permuted(seq![chord], table).contains((m, k)) ==> (has_mods(m, CTRL) == has_mods(
            chord.0,
            CTRL,
        ) && has_mods(m, ALT) == has_mods(chord.0, ALT) && has_mods(m, SUPER) == has_mods(
            chord.0,
            SUPER,
        )),
        table.code_of(shifted_label(chord.1)) != table.code_of(chord.1) ==> exists|f: u16|
            !has_mods(f, SHIFT) && #[trigger] permuted(seq![chord], table).contains(
                (f, table.code_of(shifted_label(chord.1))),
            ),
{
    commands_are_bound_to_the_forms_of_their_chords(seq![chord], table, m, k);
    lemma_without_shift(chord.0);
    assert(16u16 & 2 != 2) by (bit_vector);
    assert(8u16 & 2 == 0 && 4u16 & 2 == 0 && 16u16 & 2 == 0) by (bit_vector);
    let f = without_shift(chord.0);
    let upper = table.code_of(shifted_label(chord.1));
    if upper != table.code_of(chord.1) {
        commands_are_bound_to_the_forms_of_their_chords(seq![chord], table, f, upper);
        assert(chord_presents(f, upper, seq![chord][0], table));
        assert(permuted(seq![chord], table).contains((f, upper)));
    }
}

/// What SHIFT makes of a key on a US layout: the capital of a letter, the sign
/// above a digit in their order on the keyboard, the closing and opening braces
/// of brackets.
pub proof fn shift_follows_the_us_layout(c: char, i: int)
    ensures
        'a' <= c <= 'z' ==> shifted_char(c) as u32 == c as u32 - 32,
        0 <= i < 10 ==> shifted_char("1234567890"@[i]) == "!@#$%^&*()"@[i],
        0 <= i < 5 ==> shifted_char("[]=-'"@[i]) == "{}+_\""@[i],
        !('a' <= c <= 'z') && !"1234567890[]=-'"@.contains(c) ==> shifted_char(c) == c,
{
    reveal_strlit("1234567890");
    reveal_strlit("!@#$%^&*()");
    reveal_strlit("[]=-'");
    reveal_strlit("{}+_\"");
    reveal_strlit("1234567890[]=-'");
    let all = "1234567890[]=-'"@;
    assert(all[0] == '1' && all[1] == '2' && all[2] == '3' && all[3] == '4' && all[4] == '5'
        && all[5] == '6' && all[6] == '7' && all[7] == '8' && all[8] == '9' && all[9] == '0'
        && all[10] == '[' && all[11] == ']' && all[12] == '=' && all[13] == '-' && all[14] == '\'');
}

/// A label with more than one character names a key that SHIFT does not change.
pub proof fn named_keys_do_not_shift(label: Seq<char>)
    ensures
        label.len() != 1 ==> shifted_label(label) == label,
        label.len() == 1 ==> shifted_label(label).len() == 1 && shifted_label(label)[0]
            == shifted_char(label[0]),
{
}

/// A label stands for the key that is listed under it first; a character that
/// is not listed stands for itself.
pub proof fn labels_resolve_to_their_first_entry(table: KeyTable, label: Seq<char>, i: int)
    requires
        0 <= i < table.names@.len(),
        table.names@[i].label@ == label,
        forall|j: int| 0 <= j < i ==> (#[trigger] table.names@[j]).label@ != label,
    ensures
        table.code_of(label) == table.names@[i].code,
{
    lemma_listed(table.names@, label, i);
}

proof fn lemma_listed(names: Seq<crate::keys::KeyName>, label: Seq<char>, i: int)
    requires
        0 <= i < names.len(),
        names[i].label@ == label,
        forall|j: int| 0 <= j < i ==> (#[trigger] names[j]).label@ != label,
    ensures
        listed_code(names, label) == Some(names[i].code),
    decreases names.len(),
{
    if i > 0 {
        assert(names[0].label@ != label);
        let rest = names.drop_first();
        assert forall|j: int| 0 <= j < i - 1 implies (#[trigger] rest[j]).label@ != label by {
            assert(rest[j] == names[j + 1]);
        }
        lemma_listed(rest, label, i - 1);
    }
}

} // verus!
