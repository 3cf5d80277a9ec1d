//! Character-sequence helpers shared by the rest of the crate.
//!
//! Every contract speaks of the `Seq<char>` view of a string.
use vstd::prelude::*;
use vstd::string::*;

verus! {

/// Appends one character: `String::push` grows the string by exactly that
/// character, at its end.
pub assume_specification[ String::push ](s: &mut String, c: char)
    ensures
        final(s)@ == old(s)@.push(c),
;

/// The views of a sequence of strings.
pub open spec fn views(v: Seq<String>) -> Seq<Seq<char>> {
    v.map_values(|s: String| s@)
}

/// The view of an optional string.
pub open spec fn opt_view(o: Option<String>) -> Option<Seq<char>> {
    match o {
        Some(s) => Some(s@),
        None => None,
    }
}

// ---------------------------------------------------------------------------
// Conversions
// ---------------------------------------------------------------------------

/// The characters of `s`, in order.
pub fn chars_of(s: &str) -> (out: Vec<char>)
    ensures
        out@ == s@,
{
    let mut out: Vec<char> = Vec::new();
    for c in it: s.chars()
        invariant
            out@ == it.seq().take(it.index() as int),
            it.seq() == s@,
    {
        out.push(c);
    }
    out
}

/// The string made of the characters `from..to` of `cs`.
pub fn string_of_range(cs: &Vec<char>, from: usize, to: usize) -> (out: String)
    requires
        from <= to <= cs.len(),
    ensures
        out@ == cs@.subrange(from as int, to as int),
{
    let mut out = String::new();
    let mut i: usize = from;
    while i < to
        invariant
            from <= i <= to <= cs.len(),
            out@ == cs@.subrange(from as int, i as int),
        decreases to - i,
    {
        out.push(cs[i]);
        i += 1;
    }
    out
}

/// The string made of the characters of `cs`.
pub fn string_of(cs: &Vec<char>) -> (out: String)
    ensures
        out@ == cs@,
{
    let out = string_of_range(cs, 0, cs.len());
    assert(cs@.subrange(0, cs.len() as int) =~= cs@);
    out
}

/// A copy of an optional string.
pub fn clone_opt(o: &Option<String>) -> (r: Option<String>)
    ensures
        opt_view(r) == opt_view(*o),
{
    match o {
        Some(s) => Some(s.clone()),
        None => None,
    }
}

/// A copy of a list of strings.
pub fn clone_strings(v: &Vec<String>) -> (r: Vec<String>)
    ensures
        views(r@) == views(v@),
{
    let mut r: Vec<String> = Vec::new();
    let mut i: usize = 0;
    while i < v.len()
        invariant
            i <= v.len(),
            r.len() == i,
            forall|k: int| 0 <= k < i ==> #[trigger] r@[k]@ == v@[k]@,
        decreases v.len() - i,
    {
        r.push(v[i].clone());
        i += 1;
    }
    assert(views(r@) =~= views(v@));
    r
}

// ---------------------------------------------------------------------------
// Comparison
// ---------------------------------------------------------------------------

/// Whether two character lists are equal.
pub fn same_chars(x: &Vec<char>, y: &Vec<char>) -> (r: bool)
    ensures
        r == (x@ == y@),
{
    if x.len() != y.len() {
        return false;
    }
    let mut i: usize = 0;
    while i < x.len()
        invariant
            i <= x.len(),
            x.len() == y.len(),
            forall|k: int| 0 <= k < i ==> x@[k] == y@[k],
        decreases x.len() - i,
    {
        if x[i] != y[i] {
            assert(x@[i as int] != y@[i as int]);
            return false;
        }
        i += 1;
    }
    assert(x@ =~= y@);
    true
}

/// Whether two strings hold the same characters.
pub fn same(a: &str, b: &str) -> (r: bool)
    ensures
        r == (a@ == b@),
{
    let x = chars_of(a);
    let y = chars_of(b);
    same_chars(&x, &y)
}

/// Whether two optional strings agree.
pub fn same_opt(a: &Option<String>, b: &Option<String>) -> (r: bool)
    ensures
        r == (opt_view(*a) == opt_view(*b)),
{
    match (a, b) {
        (Some(x), Some(y)) => same(x.as_str(), y.as_str()),
        (None, None) => true,
        _ => false,
    }
}

/// Whether two lists of strings agree, element by element.
pub fn same_strings(a: &Vec<String>, b: &Vec<String>) -> (r: bool)
    ensures
        r == (views(a@) == views(b@)),
{
    if a.len() != b.len() {
        assert(views(a@).len() != views(b@).len());
        return false;
    }
    let mut i: usize = 0;
    while i < a.len()
        invariant
            i <= a.len(),
            a.len() == b.len(),
            forall|k: int| 0 <= k < i ==> #[trigger] views(a@)[k] == views(b@)[k],
        decreases a.len() - i,
    {
        assert(views(a@)[i as int] == a@[i as int]@);
        assert(views(b@)[i as int] == b@[i as int]@);
        if !same(a[i].as_str(), b[i].as_str()) {
            return false;
        }
        i += 1;
    }
    assert(views(a@) =~= views(b@));
    true
}

/// Whether `s` is one of the strings in `list`.
pub fn contains_string(list: &Vec<String>, s: &str) -> (r: bool)
    ensures
        r == views(list@).contains(s@),
{
    let mut i: usize = 0;
    while i < list.len()
        invariant
            i <= list.len(),
            forall|k: int| 0 <= k < i ==> #[trigger] views(list@)[k] != s@,
        decreases list.len() - i,
    {
        assert(views(list@)[i as int] == list@[i as int]@);
        if same(list[i].as_str(), s) {
            return true;
        }
        i += 1;
    }
    false
}

/// Lexicographic order on character sequences, by scalar value: the order of
/// `str`, whose UTF-8 bytes compare as their code points do.
pub open spec fn text_le(a: Seq<char>, b: Seq<char>) -> bool
    decreases a.len(),
{
    if a.len() == 0 {
        true
    } else if b.len() == 0 {
        false
    } else if a[0] != b[0] {
        a[0] < b[0]
    } else {
        text_le(a.drop_first(), b.drop_first())
    }
}

pub proof fn lemma_text_le_reflexive(a: Seq<char>)
    ensures
        text_le(a, a),
    decreases a.len(),
{
    if a.len() > 0 {
        lemma_text_le_reflexive(a.drop_first());
    }
}

pub proof fn lemma_text_le_total(a: Seq<char>, b: Seq<char>)
    ensures
        text_le(a, b) || text_le(b, a),
    decreases a.len(),
{
    if a.len() > 0 && b.len() > 0 && a[0] == b[0] {
        lemma_text_le_total(a.drop_first(), b.drop_first());
    }
}

pub proof fn lemma_text_le_antisymmetric(a: Seq<char>, b: Seq<char>)
    requires
        text_le(a, b),
        text_le(b, a),
    ensures
        a == b,
    decreases a.len(),
{
    if a.len() > 0 && b.len() > 0 {
        lemma_text_le_antisymmetric(a.drop_first(), b.drop_first());
        assert(a =~= seq![a[0]] + a.drop_first());
        assert(b =~= seq![b[0]] + b.drop_first());
    } else {
        assert(a =~= b);
    }
}

pub proof fn lemma_text_le_transitive(a: Seq<char>, b: Seq<char>, c: Seq<char>)
    requires
        text_le(a, b),
        text_le(b, c),
    ensures
        text_le(a, c),
    decreases a.len(),
{
    if a.len() > 0 && b.len() > 0 && c.len() > 0 && a[0] == b[0] && b[0] == c[0] {
        lemma_text_le_transitive(a.drop_first(), b.drop_first(), c.drop_first());
    }
}

/// Whether `a` sorts at or before `b`.
pub fn text_at_most(a: &str, b: &str) -> (r: bool)
    ensures
        r == text_le(a@, b@),
{
    let x = chars_of(a);
    let y = chars_of(b);
    let mut i: usize = 0;
    assert(x@.skip(0) =~= x@);
    assert(y@.skip(0) =~= y@);
    while i < x.len() && i < y.len() && x[i] == y[i]
        invariant
            i <= x.len(),
            i <= y.len(),
            x@ == a@,
            y@ == b@,
            text_le(a@, b@) == text_le(x@.skip(i as int), y@.skip(i as int)),
        decreases x.len() - i,
    {
        assert(x@.skip(i as int).drop_first() =~= x@.skip(i + 1));
        assert(y@.skip(i as int).drop_first() =~= y@.skip(i + 1));
        i += 1;
    }
    if i >= x.len() {
        true
    } else if i >= y.len() {
        false
    } else {
        x[i] < y[i]
    }
}

// ---------------------------------------------------------------------------
// Prefixes, suffixes, search
// ---------------------------------------------------------------------------

/// `str::starts_with` for a string pattern.
pub fn starts_with(s: &str, p: &str) -> (r: bool)
    ensures
        r == p@.is_prefix_of(s@),
{
    let x = chars_of(s);
    let y = chars_of(p);
    if x.len() < y.len() {
        return false;
    }
    let mut i: usize = 0;
    while i < y.len()
        invariant
            i <= y.len() <= x.len(),
            x@ == s@,
            y@ == p@,
            forall|k: int| 0 <= k < i ==> x@[k] == y@[k],
        decreases y.len() - i,
    {
        if x[i] != y[i] {
            assert(s@.subrange(0, p@.len() as int)[i as int] != p@[i as int]);
            return false;
        }
        i += 1;
    }
    assert(s@.subrange(0, p@.len() as int) =~= p@);
    true
}

/// `str::ends_with` for a string pattern.
pub fn ends_with(s: &str, p: &str) -> (r: bool)
    ensures
        r == p@.is_suffix_of(s@),
{
    let x = chars_of(s);
    let y = chars_of(p);
    if x.len() < y.len() {
        return false;
    }
    let base: usize = x.len() - y.len();
    let mut i: usize = 0;
    while i < y.len()
        invariant
            i <= y.len() <= x.len(),
            base == x.len() - y.len(),
            x@ == s@,
            y@ == p@,
            forall|k: int| 0 <= k < i ==> x@[base + k] == y@[k],
        decreases y.len() - i,
    {
        if x[base + i] != y[i] {
            assert(s@.subrange((s@.len() - p@.len()) as int, s@.len() as int)[i as int]
                != p@[i as int]);
            return false;
        }
        i += 1;
    }
    assert(s@.subrange((s@.len() - p@.len()) as int, s@.len() as int) =~= p@);
    true
}

/// Whether `p` occurs in `s` at position `i`.
pub open spec fn occurs_at(s: Seq<char>, p: Seq<char>, i: int) -> bool {
    0 <= i && i + p.len() <= s.len() && s.subrange(i, i + p.len()) == p
}

/// Whether `p` occurs somewhere in `s`.
pub open spec fn occurs(s: Seq<char>, p: Seq<char>) -> bool {
    exists|i: int| #[trigger] occurs_at(s, p, i)
}

/// `str::find` for a string pattern: the first place where it occurs, in
/// characters.
pub fn find_chars(x: &Vec<char>, y: &Vec<char>) -> (r: Option<usize>)
    ensures
        r matches Some(i) ==> occurs_at(x@, y@, i as int) && forall|j: int|
            0 <= j < i ==> !occurs_at(x@, y@, j),
        r is None ==> !occurs(x@, y@),
{
    if x.len() < y.len() {
        return None;
    }
    let last: usize = x.len() - y.len();
    let mut i: usize = 0;
    loop
        invariant
            i <= last,
            last == x.len() - y.len(),
            forall|j: int| 0 <= j < i ==> !occurs_at(x@, y@, j),
        ensures
            forall|j: int| 0 <= j <= last ==> !occurs_at(x@, y@, j),
        decreases last - i,
    {
        let mut k: usize = 0;
        while k < y.len() && x[i + k] == y[k]
            invariant
                k <= y.len(),
                i <= last,
                last == x.len() - y.len(),
                forall|j: int| 0 <= j < k ==> x@[i + j] == y@[j],
            decreases y.len() - k,
        {
            k += 1;
        }
        if k == y.len() {
            assert(x@.subrange(i as int, i + y@.len()) =~= y@);
            return Some(i);
        }
        assert(!occurs_at(x@, y@, i as int)) by {
            if occurs_at(x@, y@, i as int) {
                assert(x@.subrange(i as int, i + y@.len())[k as int] == x@[i + k]);
            }
        }
        if i == last {
            break;
        }
        i += 1;
    }
    None
}

/// `str::contains` for a string pattern.
pub fn contains(s: &str, p: &str) -> (r: bool)
    ensures
        r == occurs(s@, p@),
{
    let x = chars_of(s);
    let y = chars_of(p);
    match find_chars(&x, &y) {
        Some(_) => true,
        None => false,
    }
}

// ---------------------------------------------------------------------------
// Character classes and case
// ---------------------------------------------------------------------------

/// The Unicode `White_Space` property, as `char::is_whitespace` tests it.
pub open spec fn is_space(c: char) -> bool {
    let u = c as u32;
    (9 <= u && u <= 13) || u == 32 || u == 0x85 || u == 0xa0 || u == 0x1680 || (0x2000 <= u && u
        <= 0x200a) || u == 0x2028 || u == 0x2029 || u == 0x202f || u == 0x205f || u == 0x3000
}

pub fn is_whitespace(c: char) -> (r: bool)
    ensures
        r == is_space(c),
{
    let u: u32 = c as u32;
    (9 <= u && u <= 13) || u == 32 || u == 0x85 || u == 0xa0 || u == 0x1680 || (0x2000 <= u && u
        <= 0x200a) || u == 0x2028 || u == 0x2029 || u == 0x202f || u == 0x205f || u == 0x3000
}

pub open spec fn is_digit(c: char) -> bool {
    '0' <= c && c <= '9'
}

pub open spec fn is_alnum(c: char) -> bool {
    is_digit(c) || ('a' <= c && c <= 'z') || ('A' <= c && c <= 'Z')
}

/// `char::is_ascii_alphanumeric`.
pub fn is_ascii_alphanumeric(c: char) -> (r: bool)
    ensures
        r == is_alnum(c),
{
    ('0' <= c && c <= '9') || ('a' <= c && c <= 'z') || ('A' <= c && c <= 'Z')
}

/// `char::to_ascii_lowercase`.
pub open spec fn lower_char(c: char) -> char {
    if 'A' <= c && c <= 'Z' {
        ((c as u32 + 32) as u8) as char
    } else {
        c
    }
}

pub fn ascii_lower_char(c: char) -> (r: char)
    ensures
        r == lower_char(c),
{
    if 'A' <= c && c <= 'Z' {
        (c as u32 + 32) as u8 as char
    } else {
        c
    }
}

/// `char::to_ascii_uppercase`.
pub open spec fn upper_char(c: char) -> char {
    if 'a' <= c && c <= 'z' {
        ((c as u32 - 32) as u8) as char
    } else {
        c
    }
}

pub fn ascii_upper_char(c: char) -> (r: char)
    ensures
        r == upper_char(c),
{
    if 'a' <= c && c <= 'z' {
        (c as u32 - 32) as u8 as char
    } else {
        c
    }
}

/// `str::to_ascii_lowercase`.
pub open spec fn lowered(s: Seq<char>) -> Seq<char> {
    s.map_values(|c: char| lower_char(c))
}

pub fn to_ascii_lowercase(s: &str) -> (r: String)
    ensures
        r@ == lowered(s@),
{
    let x = chars_of(s);
    let mut out = String::new();
    let mut i: usize = 0;
    while i < x.len()
        invariant
            i <= x.len(),
            x@ == s@,
            out@ == lowered(s@.take(i as int)),
        decreases x.len() - i,
    {
        out.push(ascii_lower_char(x[i]));
        i += 1;
        assert(out@ =~= lowered(s@.take(i as int)));
    }
    assert(s@.take(i as int) =~= s@);
    out
}

/// `str::eq_ignore_ascii_case`.
pub fn same_ignoring_case(a: &str, b: &str) -> (r: bool)
    ensures
        r == (lowered(a@) == lowered(b@)),
{
    let x = to_ascii_lowercase(a);
    let y = to_ascii_lowercase(b);
    same(x.as_str(), y.as_str())
}

// ---------------------------------------------------------------------------
// Trimming
// ---------------------------------------------------------------------------

pub open spec fn trimmed_start(s: Seq<char>) -> Seq<char>
    decreases s.len(),
{
    if s.len() > 0 && is_space(s[0]) {
        trimmed_start(s.drop_first())
    } else {
        s
    }
}

pub open spec fn trimmed_end(s: Seq<char>) -> Seq<char>
    decreases s.len(),
{
    if s.len() > 0 && is_space(s.last()) {
        trimmed_end(s.drop_last())
    } else {
        s
    }
}

/// `str::trim`: without leading and trailing white space.
pub open spec fn trimmed(s: Seq<char>) -> Seq<char> {
    trimmed_end(trimmed_start(s))
}

/// `str::trim_end`.
pub fn trim_end(s: &str) -> (r: String)
    ensures
        r@ == trimmed_end(s@),
{
    let x = chars_of(s);
    let mut to: usize = x.len();
    assert(s@.subrange(0, to as int) =~= s@);
    while to > 0 && is_whitespace(x[to - 1])
        invariant
            to <= x.len(),
            x@ == s@,
            trimmed_end(s@) == trimmed_end(s@.subrange(0, to as int)),
        decreases to,
    {
        assert(s@.subrange(0, to as int).drop_last() =~= s@.subrange(0, to - 1));
        to -= 1;
    }
    proof {
        if to > 0 {
            assert(s@.subrange(0, to as int).last() == x@[to - 1]);
        }
    }
    string_of_range(&x, 0, to)
}

/// `str::trim_start`.
pub fn trim_start(s: &str) -> (r: String)
    ensures
        r@ == trimmed_start(s@),
{
    let x = chars_of(s);
    let mut from: usize = 0;
    proof {
        assert(s@.skip(0) =~= s@);
    }
    while from < x.len() && is_whitespace(x[from])
        invariant
            from <= x.len(),
            x@ == s@,
            trimmed_start(s@) == trimmed_start(s@.skip(from as int)),
        decreases x.len() - from,
    {
        assert(s@.skip(from as int).drop_first() =~= s@.skip(from + 1));
        from += 1;
    }
    assert(s@.skip(from as int) =~= s@.subrange(from as int, s@.len() as int));
    string_of_range(&x, from, x.len())
}

/// `str::trim`.
pub fn trim(s: &str) -> (r: String)
    ensures
        r@ == trimmed(s@),
{
    let a = trim_start(s);
    trim_end(a.as_str())
}

// ---------------------------------------------------------------------------
// Splitting
// ---------------------------------------------------------------------------

/// The pieces of `s` between occurrences of `c`: `str::split` on a character.
/// There is always at least one piece.
pub open spec fn split_on(s: Seq<char>, c: char) -> Seq<Seq<char>>
    decreases s.len(),
{
    if s.len() == 0 {
        seq![Seq::<char>::empty()]
    } else {
        let before = split_on(s.drop_last(), c);
        if s.last() == c {
            before.push(Seq::<char>::empty())
        } else {
            before.drop_last().push(before.last().push(s.last()))
        }
    }
}

pub proof fn lemma_split_on_nonempty(s: Seq<char>, c: char)
    ensures
        split_on(s, c).len() > 0,
    decreases s.len(),
{
    if s.len() > 0 {
        lemma_split_on_nonempty(s.drop_last(), c);
    }
}

/// No piece of a split holds the character that it was split on.
pub proof fn lemma_split_pieces(s: Seq<char>, c: char)
    ensures
        forall|i: int| 0 <= i < split_on(s, c).len() ==> !(#[trigger] split_on(s, c)[i]).contains(
            c,
        ),
    decreases s.len(),
{
    if s.len() > 0 {
        lemma_split_pieces(s.drop_last(), c);
        lemma_split_on_nonempty(s.drop_last(), c);
        let before = split_on(s.drop_last(), c);
        let after = split_on(s, c);
        assert forall|i: int| 0 <= i < after.len() implies !(#[trigger] after[i]).contains(c) by {
            if i < before.len() - 1 || (i < before.len() && s.last() == c) {
                assert(after[i] == before[i]);
            } else if s.last() != c {
                assert(!before[before.len() - 1].contains(c));
                let longer = before.last().push(s.last());
                assert(after[i] == longer);
                if longer.contains(c) {
                    let k = choose|k: int| 0 <= k < longer.len() && longer[k] == c;
                    assert(before.last()[k] == c);
                }
            }
        }
    }
}

/// `str::split` on a character.
pub fn split_char(s: &str, c: char) -> (out: Vec<String>)
    ensures
        views(out@) == split_on(s@, c),
        out.len() > 0,
{
    let cs = chars_of(s);
    let mut out: Vec<String> = Vec::new();
    let mut current = String::new();
    let mut i: usize = 0;
    assert(views(out@).push(current@) =~= split_on(s@.take(0), c));
    while i < cs.len()
        invariant
            i <= cs.len(),
            cs@ == s@,
            views(out@).push(current@) == split_on(s@.take(i as int), c),
        decreases cs.len() - i,
    {
        let ghost before = views(out@).push(current@);
        proof {
            assert(s@.take(i + 1).drop_last() =~= s@.take(i as int));
            assert(s@.take(i + 1).last() == cs@[i as int]);
            assert(before.last() == current@);
            assert(before.drop_last() =~= views(out@));
        }
        if cs[i] == c {
            let ghost piece = current@;
            let ghost listed = views(out@);
            out.push(current);
            current = String::new();
            assert(views(out@) =~= listed.push(piece));
        } else {
            current.push(cs[i]);
        }
        i += 1;
    }
    assert(s@.take(i as int) =~= s@);
    let ghost listed = views(out@);
    out.push(current);
    assert(views(out@) =~= listed.push(current@));
    out
}

/// A line without the carriage return that ends it.
pub open spec fn without_cr(s: Seq<char>) -> Seq<char> {
    if s.len() > 0 && s.last() == '\r' {
        s.drop_last()
    } else {
        s
    }
}

/// The lines of a text: `str::lines`. A final line feed ends the last line and
/// starts no further one; a carriage return counts as part of a line feed.
pub open spec fn lines_of(s: Seq<char>) -> Seq<Seq<char>> {
    let pieces = split_on(s, '\n');
    let ended = pieces.drop_last().map_values(|p: Seq<char>| without_cr(p));
    if pieces.last().len() == 0 {
        ended
    } else {
        ended.push(pieces.last())
    }
}

fn strip_cr(s: &str) -> (r: String)
    ensures
        r@ == without_cr(s@),
{
    let cs = chars_of(s);
    if cs.len() > 0 && cs[cs.len() - 1] == '\r' {
        let r = string_of_range(&cs, 0, cs.len() - 1);
        assert(r@ =~= without_cr(s@));
        r
    } else {
        s.to_owned()
    }
}

/// `str::lines`.
pub fn lines(s: &str) -> (out: Vec<String>)
    ensures
        views(out@) == lines_of(s@),
{
    let pieces = split_char(s, '\n');
    let ghost all = views(pieces@);
    let last: usize = pieces.len() - 1;
    let mut out: Vec<String> = Vec::new();
    let mut i: usize = 0;
    while i < last
        invariant
            i <= last,
            last == pieces.len() - 1,
            all == views(pieces@),
            out.len() == i,
            forall|k: int| 0 <= k < i ==> #[trigger] out@[k]@ == without_cr(all[k]),
        decreases last - i,
    {
        out.push(strip_cr(pieces[i].as_str()));
        i += 1;
    }
    assert(views(out@) =~= all.drop_last().map_values(|p: Seq<char>| without_cr(p)));
    assert(all.last() == pieces@[last as int]@);
    if !pieces[last].as_str().is_empty() {
        let ghost listed = views(out@);
        out.push(pieces[last].clone());
        assert(views(out@) =~= listed.push(all.last()));
    }
    out
}

/// The first `n` characters of `s`, or all of them.
pub open spec fn prefix_chars(s: Seq<char>, n: nat) -> Seq<char> {
    if s.len() <= n {
        s
    } else {
        s.take(n as int)
    }
}

/// `s.chars().take(n).collect()`.
pub fn take_chars(s: &str, n: usize) -> (r: String)
    ensures
        r@ == prefix_chars(s@, n as nat),
{
    let cs = chars_of(s);
    if cs.len() <= n {
        s.to_owned()
    } else {
        let r = string_of_range(&cs, 0, n);
        assert(r@ =~= s@.take(n as int));
        r
    }
}

/// `s` with every `from` replaced by `to`.
pub open spec fn char_replaced(s: Seq<char>, from: char, to: char) -> Seq<char> {
    s.map_values(
        |c: char|
            if c == from {
                to
            } else {
                c
            },
    )
}

/// `str::replace` of one character by another.
pub fn replace_char(s: &str, from: char, to: char) -> (r: String)
    ensures
        r@ == char_replaced(s@, from, to),
{
    let cs = chars_of(s);
    let mut out: Vec<char> = Vec::new();
    let mut i: usize = 0;
    while i < cs.len()
        invariant
            i <= cs.len(),
            cs@ == s@,
            out.len() == i,
            forall|k: int| 0 <= k < i ==> #[trigger] out@[k] == char_replaced(s@, from, to)[k],
        decreases cs.len() - i,
    {
        if cs[i] == from {
            out.push(to);
        } else {
            out.push(cs[i]);
        }
        i += 1;
    }
    assert(out@ =~= char_replaced(s@, from, to));
    string_of(&out)
}

// ---------------------------------------------------------------------------
// Words
// ---------------------------------------------------------------------------

/// The words of a text and the one that its end may belong to, which is empty
/// behind white space.
pub open spec fn words_so_far(s: Seq<char>) -> (Seq<Seq<char>>, Seq<char>)
    decreases s.len(),
{
    if s.len() == 0 {
        (seq![], seq![])
    } else {
        let before = words_so_far(s.drop_last());
        if !is_space(s.last()) {
            (before.0, before.1.push(s.last()))
        } else if before.1.len() > 0 {
            (before.0.push(before.1), seq![])
        } else {
            before
        }
    }
}

/// The words of a text: `str::split_whitespace`.
pub open spec fn words_of(s: Seq<char>) -> Seq<Seq<char>> {
    let (words, last) = words_so_far(s);
    if last.len() > 0 {
        words.push(last)
    } else {
        words
    }
}

/// `str::split_whitespace`.
pub fn split_whitespace(s: &str) -> (out: Vec<String>)
    ensures
        views(out@) == words_of(s@),
{
    let cs = chars_of(s);
    let mut out: Vec<String> = Vec::new();
    let mut current = String::new();
    let mut i: usize = 0;
    assert(views(out@) =~= seq![]);
    while i < cs.len()
        invariant
            i <= cs.len(),
            cs@ == s@,
            words_so_far(s@.take(i as int)) == (views(out@), current@),
        decreases cs.len() - i,
    {
        assert(s@.take(i + 1).drop_last() =~= s@.take(i as int));
        assert(s@.take(i + 1).last() == cs@[i as int]);
        if !is_whitespace(cs[i]) {
            current.push(cs[i]);
        } else if !current.as_str().is_empty() {
            let ghost listed = views(out@);
            let ghost word = current@;
            out.push(current);
            assert(views(out@) =~= listed.push(word));
            current = String::new();
        }
        i += 1;
    }
    assert(s@.take(i as int) =~= s@);
    if !current.as_str().is_empty() {
        let ghost listed = views(out@);
        out.push(current);
        assert(views(out@) =~= listed.push(current@));
    }
    out
}

/// `s` without the characters `c` that lead it: `trim_start_matches`.
pub open spec fn without_start(s: Seq<char>, c: char) -> Seq<char>
    decreases s.len(),
{
    if s.len() > 0 && s[0] == c {
        without_start(s.drop_first(), c)
    } else {
        s
    }
}

/// `str::trim_start_matches` for a character.
pub fn trim_start_char(s: &str, c: char) -> (r: String)
    ensures
        r@ == without_start(s@, c),
{
    let cs = chars_of(s);
    let mut from: usize = 0;
    assert(s@.skip(0) =~= s@);
    while from < cs.len() && cs[from] == c
        invariant
            from <= cs.len(),
            cs@ == s@,
            without_start(s@, c) == without_start(s@.skip(from as int), c),
        decreases cs.len() - from,
    {
        assert(s@.skip(from as int).drop_first() =~= s@.skip(from + 1));
        from += 1;
    }
    assert(s@.skip(from as int) =~= s@.subrange(from as int, s@.len() as int));
    string_of_range(&cs, from, cs.len())
}

// ---------------------------------------------------------------------------
// Encoded length
// ---------------------------------------------------------------------------

/// The bytes that a character takes in UTF-8.
pub open spec fn utf8_width(c: char) -> nat {
    let u = c as u32;
    if u < 0x80 {
        1
    } else if u < 0x800 {
        2
    } else if u < 0x10000 {
        3
    } else {
        4
    }
}

/// The bytes that a text takes in UTF-8: `str::len`.
pub open spec fn utf8_len(s: Seq<char>) -> nat
    decreases s.len(),
{
    if s.len() == 0 {
        0
    } else {
        utf8_len(s.drop_last()) + utf8_width(s.last())
    }
}

/// `char::len_utf8`.
pub fn char_width(c: char) -> (r: usize)
    ensures
        r == utf8_width(c),
        1 <= r <= 4,
{
    let u: u32 = c as u32;
    if u < 0x80 {
        1
    } else if u < 0x800 {
        2
    } else if u < 0x10000 {
        3
    } else {
        4
    }
}

pub proof fn lemma_utf8_len_concat(a: Seq<char>, b: Seq<char>)
    ensures
        utf8_len(a + b) == utf8_len(a) + utf8_len(b),
    decreases b.len(),
{
    if b.len() == 0 {
        assert(a + b =~= a);
    } else {
        lemma_utf8_len_concat(a, b.drop_last());
        assert((a + b).drop_last() =~= a + b.drop_last());
        assert((a + b).last() == b.last());
    }
}

pub proof fn lemma_utf8_len_bounds(s: Seq<char>)
    ensures
        s.len() <= utf8_len(s) <= 4 * s.len(),
    decreases s.len(),
{
    if s.len() > 0 {
        lemma_utf8_len_bounds(s.drop_last());
    }
}

/// The encoded length of a text, or `usize::MAX` where it is larger still.
pub fn encoded_len(s: &str) -> (r: usize)
    ensures
        r == if utf8_len(s@) <= usize::MAX {
            utf8_len(s@) as int
        } else {
            usize::MAX as int
        },
{
    let cs = chars_of(s);
    let mut n: usize = 0;
    let mut i: usize = 0;
    while i < cs.len()
        invariant
            i <= cs.len(),
            cs@ == s@,
            n == if utf8_len(s@.take(i as int)) <= usize::MAX {
                utf8_len(s@.take(i as int)) as int
            } else {
                usize::MAX as int
            },
        decreases cs.len() - i,
    {
        assert(s@.take(i + 1).drop_last() =~= s@.take(i as int));
        assert(s@.take(i + 1).last() == cs@[i as int]);
        n = n.saturating_add(char_width(cs[i]));
        i += 1;
    }
    assert(s@.take(i as int) =~= s@);
    n
}

/// The longest prefix of a text that takes at most `room` bytes.
pub open spec fn fitting(s: Seq<char>, room: nat) -> Seq<char>
    decreases s.len(),
{
    if utf8_len(s) <= room || s.len() == 0 {
        s
    } else {
        fitting(s.drop_last(), room)
    }
}

pub proof fn lemma_fitting_fits(s: Seq<char>, room: nat)
    ensures
        utf8_len(fitting(s, room)) <= room,
    decreases s.len(),
{
    if utf8_len(s) > room && s.len() > 0 {
        lemma_fitting_fits(s.drop_last(), room);
    }
}

proof fn lemma_fitting_is(s: Seq<char>, room: nat, k: int)
    requires
        0 <= k <= s.len(),
        utf8_len(s.take(k)) <= room,
        k < s.len() ==> utf8_len(s.take(k + 1)) > room,
    ensures
        fitting(s, room) == s.take(k),
    decreases s.len(),
{
    if k == s.len() {
        assert(s.take(k) =~= s);
    } else {
        assert(s.take(k + 1) + s.skip(k + 1) =~= s);
        lemma_utf8_len_concat(s.take(k + 1), s.skip(k + 1));
        let rest = s.drop_last();
        assert(rest.take(k) =~= s.take(k));
        if k < rest.len() {
            assert(rest.take(k + 1) =~= s.take(k + 1));
        }
        lemma_fitting_is(rest, room, k);
    }
}

/// Cuts a text to at most `room` bytes, at the end of a character.
pub fn fit_bytes(s: &str, room: usize) -> (r: String)
    ensures
        r@ == fitting(s@, room as nat),
        utf8_len(r@) <= room,
{
    let cs = chars_of(s);
    let mut used: usize = 0;
    let mut i: usize = 0;
    assert(s@.take(0) =~= seq![]);
    while i < cs.len()
        invariant_except_break
            i <= cs.len(),
            cs@ == s@,
            used == utf8_len(s@.take(i as int)),
            used <= room,
        ensures
            i <= cs.len(),
            used == utf8_len(s@.take(i as int)),
            used <= room,
            i < cs.len() ==> utf8_len(s@.take(i + 1)) > room,
        decreases cs.len() - i,
    {
        proof {
            assert(s@.take(i + 1).drop_last() =~= s@.take(i as int));
            assert(s@.take(i + 1).last() == cs@[i as int]);
        }
        let width: usize = char_width(cs[i]);
        if width > room - used {
            break;
        }
        used = used + width;
        i += 1;
    }
    proof {
        lemma_fitting_is(s@, room as nat, i as int);
    }
    string_of_range(&cs, 0, i)
}

/// What `String::from_utf8_lossy` makes of some bytes.
pub uninterp spec fn lossy_text(bytes: Seq<u8>) -> Seq<char>;

/// `String::from_utf8_lossy`: the text that the bytes encode, with U+FFFD in
/// the place of what is not UTF-8. The text is a function of the bytes alone;
/// which characters stand in it is left to the name.
#[verifier::external_body]
pub(crate) fn decode_lossy(bytes: &Vec<u8>) -> (r: String)
    ensures
        r@ == lossy_text(bytes@),
{
    String::from_utf8_lossy(bytes.as_slice()).into_owned()
}

// ---------------------------------------------------------------------------
// Decimal numerals
// ---------------------------------------------------------------------------

/// The character of a decimal digit.
pub open spec fn digit_char(d: int) -> char {
    ((d + 48) as u8) as char
}

/// The decimal numeral of `n`, without leading zeros.
pub open spec fn decimal(n: nat) -> Seq<char>
    decreases n,
{
    if n < 10 {
        seq![digit_char(n as int)]
    } else {
        decimal(n / 10).push(digit_char((n % 10) as int))
    }
}

/// The decimal numeral of an integer, with a minus sign where it is negative.
pub open spec fn decimal_int(n: int) -> Seq<char> {
    if n < 0 {
        seq!['-'] + decimal((-n) as nat)
    } else {
        decimal(n as nat)
    }
}

/// The decimal numeral of `n`.
pub fn decimal_of(n: u128) -> (r: String)
    ensures
        r@ == decimal(n as nat),
    decreases n,
{
    let digit: u8 = (n % 10) as u8;
    let c: char = (digit + 48) as char;
    if n < 10 {
        let mut out = String::new();
        out.push(c);
        assert(out@ =~= decimal(n as nat));
        out
    } else {
        let mut out = decimal_of(n / 10);
        out.push(c);
        out
    }
}

/// The decimal numeral of a signed number.
pub fn decimal_of_signed(n: i128) -> (r: String)
    ensures
        r@ == decimal_int(n as int),
{
    if n < 0 {
        let magnitude: u128 = if n == i128::MIN {
            0x8000_0000_0000_0000_0000_0000_0000_0000
        } else {
            (-n) as u128
        };
        let body = decimal_of(magnitude);
        let mut out = String::new();
        out.push('-');
        out.append(body.as_str());
        assert(out@ =~= decimal_int(n as int));
        out
    } else {
        decimal_of(n as u128)
    }
}

// ---------------------------------------------------------------------------
// Reading numerals, replacing text
// ---------------------------------------------------------------------------

pub open spec fn all_digits(s: Seq<char>) -> bool {
    forall|i: int| 0 <= i < s.len() ==> is_digit(#[trigger] s[i])
}

/// The number that a string of digits stands for.
pub open spec fn digits_value(s: Seq<char>) -> nat
    decreases s.len(),
{
    if s.len() == 0 {
        0
    } else {
        10 * digits_value(s.drop_last()) + (s.last() as int - 48) as nat
    }
}

/// The digits of an unsigned numeral: a plus sign may lead them.
pub open spec fn unsigned_digits(s: Seq<char>) -> Seq<char> {
    if s.len() > 0 && s[0] == '+' {
        s.drop_first()
    } else {
        s
    }
}

/// The number of an unsigned numeral that is at most `max`: `str::parse` for
/// an unsigned integer type.
pub open spec fn parsed_unsigned(s: Seq<char>, max: nat) -> Option<nat> {
    let d = unsigned_digits(s);
    if d.len() > 0 && all_digits(d) && digits_value(d) <= max {
        Some(digits_value(d))
    } else {
        None
    }
}

proof fn lemma_digits_grow(s: Seq<char>, n: int, m: int)
    requires
        0 <= n <= m <= s.len(),
        all_digits(s),
    ensures
        digits_value(s.take(n)) <= digits_value(s.take(m)),
    decreases m,
{
    if n < m {
        lemma_digits_grow(s, n, m - 1);
        assert(s.take(m).drop_last() =~= s.take(m - 1));
    }
}

/// `str::parse::<u32>`.
pub fn parse_u32(s: &str) -> (r: Option<u32>)
    ensures
        (match r {
            Some(n) => Some(n as nat),
            None => None,
        }) == parsed_unsigned(s@, u32::MAX as nat),
{
    let cs = chars_of(s);
    let from: usize = if cs.len() > 0 && cs[0] == '+' {
        1
    } else {
        0
    };
    let ghost d = unsigned_digits(s@);
    assert(d =~= cs@.skip(from as int));
    if from == cs.len() {
        return None;
    }
    let mut value: u64 = 0;
    let mut i: usize = from;
    assert(d.take(0) =~= seq![]);
    while i < cs.len()
        invariant
            from <= i <= cs.len(),
            d == cs@.skip(from as int),
            d.len() > 0,
            d == unsigned_digits(s@),
            forall|k: int| 0 <= k < i - from ==> is_digit(#[trigger] d[k]),
            value == digits_value(d.take(i - from)),
            value <= u32::MAX,
        decreases cs.len() - i,
    {
        let c = cs[i];
        assert(d[i - from] == c);
        if !('0' <= c && c <= '9') {
            assert(!all_digits(d));
            return None;
        }
        assert(d.take(i + 1 - from).drop_last() =~= d.take(i - from));
        let digit: u64 = (c as u32 - 48) as u64;
        value = value * 10 + digit;
        i += 1;
        if value > u32::MAX as u64 {
            proof {
                if all_digits(d) {
                    lemma_digits_grow(d, i - from, d.len() as int);
                    assert(d.take(d.len() as int) =~= d);
                }
            }
            return None;
        }
    }
    assert(d.take(i - from) =~= d);
    Some(value as u32)
}

/// `s` with the occurrences of `p` replaced, from the left: `str::replace`
/// for a pattern that is not empty.
pub open spec fn text_replaced(s: Seq<char>, p: Seq<char>, with: Seq<char>) -> Seq<char>
    decreases s.len(),
{
    if s.len() == 0 || p.len() == 0 {
        s
    } else if occurs_at(s, p, 0) {
        with + text_replaced(s.skip(p.len() as int), p, with)
    } else {
        seq![s[0]] + text_replaced(s.drop_first(), p, with)
    }
}

fn occurs_here(cs: &Vec<char>, p: &Vec<char>, at: usize) -> (r: bool)
    requires
        at <= cs.len(),
    ensures
        r == occurs_at(cs@.skip(at as int), p@, 0),
{
    let ghost s = cs@.skip(at as int);
    if cs.len() - at < p.len() {
        return false;
    }
    let mut k: usize = 0;
    while k < p.len()
        invariant
            k <= p.len() <= cs.len() - at,
            s == cs@.skip(at as int),
            forall|j: int| 0 <= j < k ==> s[j] == p@[j],
        decreases p.len() - k,
    {
        if cs[at + k] != p[k] {
            assert(s.subrange(0, p@.len() as int)[k as int] != p@[k as int]);
            return false;
        }
        k += 1;
    }
    assert(s.subrange(0, p@.len() as int) =~= p@);
    true
}

/// `str::replace` for a pattern that is not empty.
pub fn replace_text(s: &str, p: &str, with: &str) -> (r: String)
    requires
        p@.len() > 0,
    ensures
        r@ == text_replaced(s@, p@, with@),
{
    let cs = chars_of(s);
    let pat = chars_of(p);
    let mut out = String::new();
    let mut i: usize = 0;
    assert(cs@.skip(0) =~= s@);
    assert(out@ + text_replaced(s@, p@, with@) =~= text_replaced(s@, p@, with@));
    while i < cs.len()
        invariant
            i <= cs.len(),
            cs@ == s@,
            pat@ == p@,
            p@.len() > 0,
            out@ + text_replaced(cs@.skip(i as int), p@, with@) == text_replaced(s@, p@, with@),
        decreases cs.len() - i,
    {
        let ghost rest = cs@.skip(i as int);
        let ghost before = out@;
        if occurs_here(&cs, &pat, i) {
            out.append(with);
            assert(rest.skip(p@.len() as int) =~= cs@.skip(i + p@.len()));
            assert(out@ + text_replaced(cs@.skip(i + p@.len()), p@, with@) =~= before
                + text_replaced(rest, p@, with@));
            i += pat.len();
        } else {
            out.push(cs[i]);
            assert(rest.drop_first() =~= cs@.skip(i + 1));
            assert(out@ + text_replaced(cs@.skip(i + 1), p@, with@) =~= before + text_replaced(
                rest,
                p@,
                with@,
            ));
            i += 1;
        }
    }
    assert(out@ + text_replaced(cs@.skip(i as int), p@, with@) =~= out@);
    out
}

// ---------------------------------------------------------------------------
// Concatenation
// ---------------------------------------------------------------------------

pub fn concat2(a: &str, b: &str) -> (r: String)
    ensures
        r@ == a@ + b@,
{
    let mut s = String::from_str(a);
    s.append(b);
    s
}

pub fn concat3(a: &str, b: &str, c: &str) -> (r: String)
    ensures
        r@ == a@ + b@ + c@,
{
    let mut s = String::from_str(a);
    s.append(b);
    s.append(c);
    s
}

pub fn concat4(a: &str, b: &str, c: &str, d: &str) -> (r: String)
    ensures
        r@ == a@ + b@ + c@ + d@,
{
    let mut s = concat3(a, b, c);
    s.append(d);
    s
}

pub fn concat5(a: &str, b: &str, c: &str, d: &str, e: &str) -> (r: String)
    ensures
        r@ == a@ + b@ + c@ + d@ + e@,
{
    let mut s = concat4(a, b, c, d);
    s.append(e);
    s
}

/// The parts of a list, with `sep` between neighbours.
pub open spec fn joined(parts: Seq<Seq<char>>, sep: Seq<char>) -> Seq<char>
    decreases parts.len(),
{
    if parts.len() == 0 {
        seq![]
    } else if parts.len() == 1 {
        parts[0]
    } else {
        joined(parts.drop_last(), sep) + sep + parts.last()
    }
}

/// `[String]::join`.
pub fn join(parts: &Vec<String>, sep: &str) -> (r: String)
    ensures
        r@ == joined(views(parts@), sep@),
{
    let mut out = String::new();
    let mut i: usize = 0;
    while i < parts.len()
        invariant
            i <= parts.len(),
            out@ == joined(views(parts@.take(i as int)), sep@),
        decreases parts.len() - i,
    {
        if i > 0 {
            out.append(sep);
        }
        out.append(parts[i].as_str());
        proof {
            let next = views(parts@.take(i + 1));
            assert(next.drop_last() =~= views(parts@.take(i as int)));
            assert(next.last() == parts@[i as int]@);
            if i == 0 {
                assert(out@ =~= parts@[0]@);
            }
        }
        i += 1;
    }
    assert(parts@.take(i as int) =~= parts@);
    out
}

} // verus!
