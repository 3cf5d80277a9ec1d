//! What is done to texts, numerals and JSON values, and how tools are described.
use crate::json::{JsonView, field_of, fields_with, items_of, listed_field, text_of};
use crate::laws::guards::lemma_split_join;
use crate::registry::{
    KindView, ParamView, ToolView, function_schema, kind_fields, param_schema, parameter_schema,
    property_fields, required_names, tool_schema,
};
use crate::text::{
    all_digits, char_replaced, decimal, decimal_int, digits_value, fitting, is_digit, is_space,
    joined, lemma_fitting_fits, lemma_split_on_nonempty, lines_of, lower_char, lowered, occurs,
    occurs_at, parsed_unsigned, prefix_chars, split_on, text_le, text_replaced, trimmed,
    trimmed_end, trimmed_start, upper_char, utf8_len, without_cr, without_start, words_of,
    words_so_far,
};
use vstd::prelude::*;
use vstd::string::*;

verus! {

// ---------------------------------------------------------------------------
// Trimming
// ---------------------------------------------------------------------------

proof fn lemma_start(s: Seq<char>)
    ensures
        trimmed_start(s).len() <= s.len(),
        s.skip(s.len() - trimmed_start(s).len()) == trimmed_start(s),
        forall|k: int|
            0 <= k < s.len() - trimmed_start(s).len() ==> is_space(#[trigger] s[k]),
        trimmed_start(s).len() > 0 ==> !is_space(trimmed_start(s)[0]),
    decreases s.len(),
{
    if s.len() > 0 && is_space(s[0]) {
        let rest = s.drop_first();
        lemma_start(rest);
        let n = rest.len() - trimmed_start(rest).len();
        assert(s.skip(n + 1) =~= rest.skip(n));
        assert forall|k: int| 0 <= k < n + 1 implies is_space(#[trigger] s[k]) by {
            if k > 0 {
                assert(rest[k - 1] == s[k]);
            }
        }
    } else {
        assert(s.skip(0) =~= s);
    }
}

proof fn lemma_end(s: Seq<char>)
    ensures
        trimmed_end(s).len() <= s.len(),
        s.take(trimmed_end(s).len() as int) == trimmed_end(s),
        forall|k: int| trimmed_end(s).len() <= k < s.len() ==> is_space(#[trigger] s[k]),
        trimmed_end(s).len() > 0 ==> !is_space(trimmed_end(s).last()),
    decreases s.len(),
{
    if s.len() > 0 && is_space(s.last()) {
        let rest = s.drop_last();
        lemma_end(rest);
        let n = trimmed_end(rest).len() as int;
        assert(s.take(n) =~= rest.take(n));
        assert forall|k: int| n <= k < s.len() implies is_space(#[trigger] s[k]) by {
            if k < rest.len() {
                assert(rest[k] == s[k]);
            }
        }
    } else {
        assert(s.take(s.len() as int) =~= s);
    }
}

/// Trimming takes white space off both ends of a text, all of it and nothing
/// else.
pub proof fn trimming_takes_only_space(s: Seq<char>)
    ensures
        exists|i: int, j: int|
            0 <= i <= j <= s.len() && #[trigger] s.subrange(i, j) == trimmed(s) && (forall|k: int|
                0 <= k < i || j <= k < s.len() ==> is_space(#[trigger] s[k])),
        trimmed(s).len() > 0 ==> !is_space(trimmed(s)[0]) && !is_space(trimmed(s).last()),
{
    let t = trimmed_start(s);
    lemma_start(s);
    lemma_end(t);
    let i = s.len() - t.len();
    let j = i + trimmed_end(t).len();
    assert(s.subrange(i, j) =~= t.take(trimmed_end(t).len() as int));
    assert forall|k: int| 0 <= k < i || j <= k < s.len() implies is_space(#[trigger] s[k]) by {
        if k >= j {
            assert(t[k - i] == s[k]);
        }
    }
    if trimmed(s).len() > 0 {
        assert(trimmed(s)[0] == t[0]);
    }
}

/// Only the given character is taken off the start of a text, as often as it
/// stands there.
pub proof fn leading_characters_are_taken_off(s: Seq<char>, c: char)
    ensures
        without_start(s, c).is_suffix_of(s),
        without_start(s, c).len() > 0 ==> without_start(s, c)[0] != c,
        forall|k: int| 0 <= k < s.len() - without_start(s, c).len() ==> #[trigger] s[k] == c,
    decreases s.len(),
{
    if s.len() > 0 && s[0] == c {
        let rest = s.drop_first();
        leading_characters_are_taken_off(rest, c);
        let w = without_start(rest, c);
        assert(s.subrange(s.len() - w.len(), s.len() as int) =~= rest.subrange(
            rest.len() - w.len(),
            rest.len() as int,
        ));
        assert forall|k: int| 0 <= k < s.len() - w.len() implies #[trigger] s[k] == c by {
            if k > 0 {
                assert(rest[k - 1] == s[k]);
            }
        }
    } else {
        assert(s.subrange(0, s.len() as int) =~= s);
    }
}

// ---------------------------------------------------------------------------
// Splitting
// ---------------------------------------------------------------------------

/// A split is undone by joining the pieces with the character again; it goes
/// apart exactly at that character.
pub proof fn splits_join_back(s: Seq<char>, t: Seq<char>, c: char)
    ensures
        joined(split_on(s, c), seq![c]) == s,
        split_on(s + seq![c] + t, c) == split_on(s, c) + split_on(t, c),
        !s.contains(c) ==> split_on(s, c) == seq![s],
    decreases s.len(),
{
    lemma_split_join(s, t, c);
    if s.len() > 0 {
        let rest = s.drop_last();
        let before = split_on(rest, c);
        splits_join_back(rest, t, c);
        lemma_split_on_nonempty(rest, c);
        let all = split_on(s, c);
        if s.last() == c {
            assert(all.drop_last() =~= before);
            assert(joined(all, seq![c]) =~= s);
            assert(s[s.len() - 1] == c);
        } else {
            assert(all.drop_last() =~= before.drop_last());
            if before.len() == 1 {
                assert(joined(before, seq![c]) == before[0]);
                assert(all.len() == 1 && all[0] == before[0].push(s.last()));
                assert(before[0] == rest);
                assert(joined(all, seq![c]) =~= s);
            } else {
                assert(all.last() == before.last().push(s.last()));
                assert(joined(all, seq![c]) =~= joined(before.drop_last(), seq![c]) + seq![c]
                    + before.last().push(s.last()));
                assert(joined(before, seq![c]) == joined(before.drop_last(), seq![c]) + seq![c]
                    + before.last());
                assert(joined(before, seq![c]) == rest);
                assert(s =~= rest.push(s.last()));
                assert((joined(before.drop_last(), seq![c]) + seq![c] + before.last()).push(
                    s.last(),
                ) =~= joined(before.drop_last(), seq![c]) + seq![c] + before.last().push(
                    s.last(),
                ));
            }
            if !s.contains(c) {
                assert(!rest.contains(c)) by {
                    if rest.contains(c) {
                        let k = choose|k: int| 0 <= k < rest.len() && rest[k] == c;
                        assert(s[k] == c);
                    }
                }
                assert(all =~= seq![s]) by {
                    assert(rest.push(s.last()) =~= s);
                }
            }
        }
    } else {
        assert(joined(split_on(s, c), seq![c]) =~= s);
        assert(split_on(s, c) =~= seq![s]);
    }
}

/// A line ends with a line feed, with or without a carriage return; what follows
/// it is taken apart by itself, and nothing that is left makes no line.
pub proof fn lines_end_with_line_feeds(line: Seq<char>, rest: Seq<char>)
    requires
        !line.contains('\n'),
    ensures
        lines_of(line + seq!['\n'] + rest) == seq![without_cr(line)] + lines_of(rest),
        line.len() > 0 ==> lines_of(line) == seq![line],
        lines_of(seq![]) == Seq::<Seq<char>>::empty(),
        without_cr(line.push('\r')) == line,
{
    splits_join_back(line, rest, '\n');
    lemma_split_on_nonempty(rest, '\n');
    let tail = split_on(rest, '\n');
    let all = split_on(line + seq!['\n'] + rest, '\n');
    assert(all =~= seq![line] + tail);
    assert(all.last() == tail.last());
    assert(lines_of(line + seq!['\n'] + rest) =~= seq![without_cr(line)] + lines_of(rest));
    if line.len() > 0 {
        assert(lines_of(line) =~= seq![line]);
    }
    assert(lines_of(seq![]) =~= Seq::<Seq<char>>::empty());
    assert(line.push('\r').drop_last() =~= line);
}

proof fn lemma_so_far(a: Seq<char>, c: char, b: Seq<char>)
    requires
        is_space(c),
    ensures
        words_so_far(a + seq![c] + b).0 == words_of(a) + words_so_far(b).0,
        words_so_far(a + seq![c] + b).1 == words_so_far(b).1,
    decreases b.len(),
{
    let s = a + seq![c] + b;
    if b.len() == 0 {
        assert(s.drop_last() =~= a);
        assert(s.last() == c);
        assert(words_so_far(s).0 =~= words_of(a) + words_so_far(b).0);
    } else {
        lemma_so_far(a, c, b.drop_last());
        assert(s.drop_last() =~= a + seq![c] + b.drop_last());
        assert(s.last() == b.last());
        assert(words_so_far(s).0 =~= words_of(a) + words_so_far(b).0);
    }
}

proof fn lemma_one_word(s: Seq<char>)
    requires
        forall|k: int| 0 <= k < s.len() ==> !is_space(#[trigger] s[k]),
    ensures
        words_so_far(s) == (Seq::<Seq<char>>::empty(), s),
    decreases s.len(),
{
    if s.len() > 0 {
        lemma_one_word(s.drop_last());
        assert(s.drop_last().push(s.last()) =~= s);
    } else {
        assert(words_so_far(s).1 =~= s);
    }
}

/// Words are what stands between white space, however much of it there is.
pub proof fn words_stand_between_space(a: Seq<char>, c: char, b: Seq<char>, word: Seq<char>)
    requires
        is_space(c),
        word.len() > 0,
        forall|k: int| 0 <= k < word.len() ==> !is_space(#[trigger] word[k]),
    ensures
        words_of(a + seq![c] + b) == words_of(a) + words_of(b),
        words_of(word) == seq![word],
        words_of(seq![]) == Seq::<Seq<char>>::empty(),
{
    lemma_so_far(a, c, b);
    assert(words_of(a + seq![c] + b) =~= words_of(a) + words_of(b));
    lemma_one_word(word);
    assert(words_of(word) =~= seq![word]);
}

proof fn lemma_joined(a: Seq<Seq<char>>, b: Seq<Seq<char>>, sep: Seq<char>)
    requires
        a.len() > 0,
        b.len() > 0,
    ensures
        joined(a + b, sep) == joined(a, sep) + sep + joined(b, sep),
    decreases b.len(),
{
    let all = a + b;
    assert(all.last() == b.last());
    if b.len() == 1 {
        assert(all.drop_last() =~= a);
        assert(joined(b, sep) == b[0]);
    } else {
        lemma_joined(a, b.drop_last(), sep);
        assert(all.drop_last() =~= a + b.drop_last());
        assert(joined(all, sep) =~= joined(a, sep) + sep + joined(b, sep));
    }
}

/// Lists are joined with the separator between neighbours and nowhere else.
pub proof fn joins_separate_neighbours(
    a: Seq<Seq<char>>,
    b: Seq<Seq<char>>,
    part: Seq<char>,
    sep: Seq<char>,
)
    requires
        a.len() > 0,
        b.len() > 0,
    ensures
        joined(a + b, sep) == joined(a, sep) + sep + joined(b, sep),
        joined(seq![part], sep) == part,
        joined(seq![], sep).len() == 0,
{
    lemma_joined(a, b, sep);
}

// ---------------------------------------------------------------------------
// Characters and order
// ---------------------------------------------------------------------------

/// Case is a matter of the letters of ASCII, one for one; nothing else changes.
pub proof fn case_is_a_matter_of_letters(c: char, s: Seq<char>)
    ensures
        'A' <= c && c <= 'Z' ==> lower_char(c) as int == c as int + 32 && upper_char(c) == c
            && upper_char(lower_char(c)) == c,
        'a' <= c && c <= 'z' ==> upper_char(c) as int == c as int - 32 && lower_char(c) == c
            && lower_char(upper_char(c)) == c,
        !('A' <= c && c <= 'Z') && !('a' <= c && c <= 'z') ==> lower_char(c) == c && upper_char(c)
            == c,
        lowered(lowered(s)) == lowered(s),
        lowered(s).len() == s.len(),
{
    assert(lowered(lowered(s)) =~= lowered(s)) by {
        assert forall|k: int| 0 <= k < s.len() implies lower_char(lower_char(s[k])) == lower_char(
            #[trigger] s[k],
        ) by {}
    }
}

/// Texts are ordered by the first character in which they differ, and a text
/// stands before those that it begins.
pub proof fn texts_are_ordered_by_the_first_difference(
    start: Seq<char>,
    x: char,
    y: char,
    s: Seq<char>,
    t: Seq<char>,
)
    ensures
        x != y ==> (text_le(start + seq![x] + s, start + seq![y] + t) <==> x < y),
        text_le(start, start + s),
        s.len() > 0 ==> !text_le(start + s, start),
    decreases start.len(),
{
    let a = start + seq![x] + s;
    let b = start + seq![y] + t;
    if start.len() > 0 {
        let rest = start.drop_first();
        texts_are_ordered_by_the_first_difference(rest, x, y, s, t);
        assert(a.drop_first() =~= rest + seq![x] + s);
        assert(b.drop_first() =~= rest + seq![y] + t);
        assert((start + s).drop_first() =~= rest + s);
    } else {
        assert(start + s =~= s);
    }
}

/// A replaced character stands nowhere any more; the others stand where they
/// stood.
pub proof fn characters_are_replaced_in_place(s: Seq<char>, from: char, to: char, i: int)
    requires
        0 <= i < s.len(),
    ensures
        char_replaced(s, from, to).len() == s.len(),
        s[i] == from ==> char_replaced(s, from, to)[i] == to,
        s[i] != from ==> char_replaced(s, from, to)[i] == s[i],
{
}

/// A pattern is replaced where it stands, what lies before and behind it is
/// taken by itself, and a text without it stays as it is.
pub proof fn patterns_are_replaced(s: Seq<char>, p: Seq<char>, with: Seq<char>)
    requires
        p.len() > 0,
    ensures
        text_replaced(p + s, p, with) == with + text_replaced(s, p, with),
        text_replaced(s, p, p) == s,
        !occurs(s, p) ==> text_replaced(s, p, with) == s,
        s.len() > 0 && !occurs_at(s, p, 0) ==> text_replaced(s, p, with) == seq![s[0]]
            + text_replaced(s.drop_first(), p, with),
    decreases s.len(),
{
    let all = p + s;
    assert(all.subrange(0, p.len() as int) =~= p);
    assert(occurs_at(all, p, 0));
    assert(all.skip(p.len() as int) =~= s);
    if s.len() > 0 {
        let rest = s.drop_first();
        patterns_are_replaced(rest, p, with);
        if occurs_at(s, p, 0) {
            assert(occurs(s, p));
            let tail = s.skip(p.len() as int);
            patterns_are_replaced(tail, p, with);
            assert(p + tail =~= s) by {
                assert(s.subrange(0, p.len() as int) + tail =~= s);
            }
        } else {
            assert(seq![s[0]] + rest =~= s);
            if !occurs(s, p) {
                assert(!occurs(rest, p)) by {
                    if occurs(rest, p) {
                        let k = choose|k: int| #[trigger] occurs_at(rest, p, k);
                        assert(s.subrange(k + 1, k + 1 + p.len()) =~= rest.subrange(
                            k,
                            k + p.len(),
                        ));
                        assert(occurs_at(s, p, k + 1));
                    }
                }
            }
        }
    }
}

// ---------------------------------------------------------------------------
// Lengths
// ---------------------------------------------------------------------------

/// A text is cut to what fits and no sooner: the next character would be too
/// much.
pub proof fn cuts_leave_what_fits(s: Seq<char>, room: nat, n: nat)
    ensures
        fitting(s, room).is_prefix_of(s),
        utf8_len(fitting(s, room)) <= room,
        fitting(s, room).len() < s.len() ==> utf8_len(
            s.take((fitting(s, room).len() + 1) as int),
        ) > room,
        prefix_chars(s, n).is_prefix_of(s),
        prefix_chars(s, n).len() == if s.len() < n {
            s.len()
        } else {
            n
        },
    decreases s.len(),
{
    lemma_fitting_fits(s, room);
    let p = prefix_chars(s, n);
    assert(s.subrange(0, p.len() as int) =~= p);
    if utf8_len(s) <= room || s.len() == 0 {
        assert(s.subrange(0, s.len() as int) =~= s);
    } else {
        let rest = s.drop_last();
        cuts_leave_what_fits(rest, room, n);
        let f = fitting(rest, room);
        assert(s.subrange(0, f.len() as int) =~= rest.subrange(0, f.len() as int));
        if f.len() < rest.len() {
            assert(s.take((f.len() + 1) as int) =~= rest.take((f.len() + 1) as int));
        } else {
            assert(s.take((f.len() + 1) as int) =~= s);
        }
    }
}

/// A numeral reads back as its number; it has no digit too many in front.
pub proof fn numerals_read_back(n: nat, max: nat)
    ensures
        all_digits(decimal(n)),
        decimal(n).len() > 0,
        digits_value(decimal(n)) == n,
        n > 0 ==> decimal(n)[0] != '0',
        n <= max ==> parsed_unsigned(decimal(n), max) == Some(n),
        n > max ==> parsed_unsigned(decimal(n), max) is None,
        decimal_int(n as int) == decimal(n),
        n > 0 ==> decimal_int(-(n as int)) == seq!['-'] + decimal(n),
    decreases n,
{
    if n >= 10 {
        numerals_read_back(n / 10, max);
        let d = decimal(n);
        assert(d.drop_last() =~= decimal(n / 10));
        assert(is_digit(d.last()));
        assert forall|i: int| 0 <= i < d.len() implies is_digit(#[trigger] d[i]) by {
            if i < d.len() - 1 {
                assert(d[i] == decimal(n / 10)[i]);
            }
        }
        assert(d[0] == decimal(n / 10)[0]);
    } else {
        let d = decimal(n);
        assert(d.drop_last() =~= seq![]);
        assert(digits_value(d.drop_last()) == 0);
    }
    assert(is_digit(decimal(n)[0]));
    assert(decimal(n)[0] != '+');
}

// ---------------------------------------------------------------------------
// JSON
// ---------------------------------------------------------------------------

/// A field is the first one under its key, and none where no key is the same.
pub proof fn fields_are_found_by_key(fields: Seq<(Seq<char>, JsonView)>, key: Seq<char>, i: int)
    ensures
        0 <= i < fields.len() && fields[i].0 == key && (forall|k: int|
            0 <= k < i ==> (#[trigger] fields[k]).0 != key) ==> listed_field(fields, key) == Some(
            fields[i].1,
        ),
        (forall|k: int| 0 <= k < fields.len() ==> (#[trigger] fields[k]).0 != key)
            ==> listed_field(fields, key) is None,
    decreases fields.len(),
{
    if fields.len() > 0 {
        let rest = fields.drop_first();
        fields_are_found_by_key(rest, key, i - 1);
        assert(forall|k: int| 0 <= k < rest.len() ==> #[trigger] rest[k] == fields[k + 1]);
    }
}

/// Replacing a field leaves as many fields, under the same keys in the same
/// order.
pub proof fn replacing_a_field_keeps_the_keys(
    fields: Seq<(Seq<char>, JsonView)>,
    key: Seq<char>,
    value: JsonView,
    i: int,
)
    requires
        0 <= i < fields.len(),
    ensures
        fields_with(fields, key, value).len() == fields.len(),
        fields_with(fields, key, value)[i].0 == fields[i].0,
        fields[i].0 != key ==> fields_with(fields, key, value)[i] == fields[i],
    decreases fields.len(),
{
    if fields[0].0 != key && fields.len() > 1 {
        let rest = fields.drop_first();
        replacing_a_field_keeps_the_keys(
            rest,
            key,
            value,
            if i > 0 {
                i - 1
            } else {
                0
            },
        );
    } else if fields[0].0 != key {
        assert(fields_with(fields.drop_first(), key, value).len() == 0);
    }
}

// ---------------------------------------------------------------------------
// Tools
// ---------------------------------------------------------------------------

proof fn lemma_schema_keys()
    ensures
        "type"@.len() == 4,
        "function"@.len() == 8,
        "name"@ != "type"@,
        "name"@.len() == 4,
        "description"@.len() == 11,
        "parameters"@.len() == 10,
        "properties"@.len() == 10,
        "required"@.len() == 8,
        "properties"@ != "required"@,
        "enum"@.len() == 4,
        "enum"@ != "type"@,
        "minimum"@.len() == 7,
        "maximum"@.len() == 7,
        "minimum"@ != "maximum"@,
        "additionalProperties"@.len() == 20,
{
    reveal_strlit("type");
    reveal_strlit("function");
    reveal_strlit("name");
    reveal_strlit("description");
    reveal_strlit("parameters");
    reveal_strlit("properties");
    reveal_strlit("required");
    reveal_strlit("enum");
    reveal_strlit("minimum");
    reveal_strlit("maximum");
    reveal_strlit("additionalProperties");
    assert("name"@[0] == 'n');
    assert("type"@[0] == 't');
    assert("enum"@[0] == 'e');
    assert("minimum"@[1] == 'i');
    assert("maximum"@[1] == 'a');
}

/// The schema of a tool carries its name, its description and its parameters.
pub proof fn schemas_describe_their_tool(tool: ToolView)
    ensures
        text_of(field_of(tool_schema(tool), "type"@)) == Some("function"@),
        field_of(tool_schema(tool), "function"@) matches Some(f) && text_of(field_of(f, "name"@))
            == Some(tool.name) && text_of(field_of(f, "description"@)) == Some(tool.description)
            && field_of(f, "parameters"@) == Some(parameter_schema(tool.parameters)),
{
    lemma_schema_keys();
    let fields = seq![
        ("type"@, JsonView::Text("function"@)),
        ("function"@, function_schema(tool)),
    ];
    fields_are_found_by_key(fields, "type"@, 0);
    fields_are_found_by_key(fields, "function"@, 1);
    let inner = seq![
        ("name"@, JsonView::Text(tool.name)),
        ("description"@, JsonView::Text(tool.description)),
        ("parameters"@, parameter_schema(tool.parameters)),
    ];
    fields_are_found_by_key(inner, "name"@, 0);
    fields_are_found_by_key(inner, "description"@, 1);
    fields_are_found_by_key(inner, "parameters"@, 2);
}

proof fn lemma_required(params: Seq<ParamView>, name: Seq<char>)
    ensures
        required_names(params).contains(JsonView::Text(name)) <==> exists|k: int|
            0 <= k < params.len() && (#[trigger] params[k]).name == name && params[k].required,
    decreases params.len(),
{
    if params.len() > 0 {
        let rest = params.drop_last();
        lemma_required(rest, name);
        let before = required_names(rest);
        let all = required_names(params);
        let text = JsonView::Text(name);
        if before.contains(text) {
            let k = choose|k: int| 0 <= k < before.len() && before[k] == text;
            assert(all[k] == text);
            let p = choose|p: int|
                0 <= p < rest.len() && (#[trigger] rest[p]).name == name && rest[p].required;
            assert(params[p] == rest[p]);
        } else if params.last().required && params.last().name == name {
            assert(all[before.len() as int] == text);
            assert(params[params.len() - 1].name == name);
        } else {
            if all.contains(text) {
                let k = choose|k: int| 0 <= k < all.len() && all[k] == text;
                assert(k < before.len());
                assert(before[k] == text);
            }
            assert forall|p: int|
                0 <= p < params.len() && (#[trigger] params[p]).name == name
                    && params[p].required implies false by {
                if p < rest.len() {
                    assert(rest[p] == params[p]);
                }
            }
        }
    }
}

/// A tool lists every parameter under its name, and as required exactly those
/// that are.
pub proof fn schemas_list_every_parameter(params: Seq<ParamView>, i: int)
    requires
        0 <= i < params.len(),
        forall|k: int, m: int|
            0 <= k < m < params.len() ==> (#[trigger] params[k]).name != (
            #[trigger] params[m]).name,
    ensures
        text_of(field_of(parameter_schema(params), "type"@)) == Some("object"@),
        field_of(parameter_schema(params), "properties"@) matches Some(p) && field_of(
            p,
            params[i].name,
        ) == Some(param_schema(params[i])),
        items_of(field_of(parameter_schema(params), "required"@)) matches Some(names)
            && names.contains(JsonView::Text(params[i].name)) == params[i].required,
{
    lemma_schema_keys();
    let fields = seq![
        ("type"@, JsonView::Text("object"@)),
        ("properties"@, JsonView::Object(property_fields(params))),
        ("required"@, JsonView::Array(required_names(params))),
    ];
    fields_are_found_by_key(fields, "type"@, 0);
    fields_are_found_by_key(fields, "properties"@, 1);
    fields_are_found_by_key(fields, "required"@, 2);
    let properties = property_fields(params);
    assert forall|k: int| 0 <= k < i implies (#[trigger] properties[k]).0 != params[i].name by {
        assert(params[k].name != params[i].name);
    }
    fields_are_found_by_key(properties, params[i].name, i);
    lemma_required(params, params[i].name);
    if required_names(params).contains(JsonView::Text(params[i].name)) {
        let k = choose|k: int|
            0 <= k < params.len() && (#[trigger] params[k]).name == params[i].name
                && params[k].required;
        if k < i {
            assert(params[k].name != params[i].name);
        } else if k > i {
            assert(params[i].name != params[k].name);
        }
    }
}

/// The schema of a parameter says what kind of value it takes and within which
/// bounds, and carries its description.
pub proof fn parameters_say_what_they_take(p: ParamView)
    ensures
        p.description matches Some(d) ==> text_of(field_of(param_schema(p), "description"@))
            == Some(d),
        p.description is None ==> field_of(param_schema(p), "description"@) is None,
        p.kind is Text || p.kind is Choice ==> text_of(field_of(param_schema(p), "type"@)) == Some(
            "string"@,
        ),
        p.kind is Integer || p.kind is Bounded ==> text_of(field_of(param_schema(p), "type"@))
            == Some("integer"@),
        p.kind is Boolean ==> text_of(field_of(param_schema(p), "type"@)) == Some("boolean"@),
        p.kind is TextMap ==> text_of(field_of(param_schema(p), "type"@)) == Some("object"@),
        p.kind matches KindView::Choice(words) ==> (items_of(field_of(param_schema(p), "enum"@))
            matches Some(listed) && listed.len() == words.len() && (forall|k: int|
            0 <= k < words.len() ==> #[trigger] listed[k] == JsonView::Text(words[k]))),
        p.kind matches KindView::Bounded(low, high) ==> crate::json::unsigned_of(
            field_of(param_schema(p), "minimum"@),
        ) == Some(low) && crate::json::unsigned_of(field_of(param_schema(p), "maximum"@)) == Some(
            high,
        ),
{
    lemma_schema_keys();
    let start = kind_fields(p.kind);
    let fields = match p.description {
        Some(d) => start.push(("description"@, JsonView::Text(d))),
        None => start,
    };
    fields_are_found_by_key(fields, "type"@, 0);
    fields_are_found_by_key(fields, "enum"@, 1);
    fields_are_found_by_key(fields, "minimum"@, 1);
    fields_are_found_by_key(fields, "maximum"@, 2);
    fields_are_found_by_key(fields, "description"@, start.len() as int);
}

} // verus!
