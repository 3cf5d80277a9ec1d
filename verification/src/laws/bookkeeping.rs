//! What is kept while things come and go: output, keys, windows, buffers.
use crate::chat_display::{
    DiffKind, ShapeView, ShownView, SpanView, diff_style, placed_code, placed_rows,
};
use crate::chat_history::entry_count;
use crate::code_search::{
    SYMBOL_MAX_RESULTS, SearchPlanView, SymbolRequest, definitions_first, skipped_entry,
    symbol_plan, symbol_result, shown_as, timeout_suffix,
};
use crate::confirm::{ConfirmStep, and_cancel};
use crate::frontend::{KnownWindow, map_with, set_without};
use crate::inline_ai_control::{base64_url, byte_or_zero, sextet, sextet_char};
use crate::laws::searches::{lemma_joined_holds, sorting_keeps_the_lines};
use crate::laws::{holds, lemma_held_in_part, lemma_stands_between, stands_at};
use crate::paths::{PathFacts, path_join, sensitivity, user_expanded};
use crate::renderstate::{Growth, TripleVertexBuffer, buffer_growth, layer_growths, rounded_up};
use crate::shell::{StreamChunk, pumped, shared_output_stays_under_the_cap};
use crate::text::{
    fitting, joined, lines_of, lossy_text, lowered, occurs, opt_view, trimmed, utf8_len,
};
use crate::updates::{SingletonState, namespaces_differ, singletons};
use vstd::arithmetic::div_mod::lemma_fundamental_div_mod_converse;
use vstd::prelude::*;
use vstd::string::*;

verus! {

// ---------------------------------------------------------------------------
// Output
// ---------------------------------------------------------------------------

/// What comes in on one stream goes behind what that stream had, the other keeps
/// what it has, and while there is room nothing is left out.
pub proof fn each_stream_keeps_its_output(chunks: Seq<StreamChunk>, cap: nat)
    requires
        chunks.len() > 0,
    ensures
        ({
            let before = pumped(chunks.drop_last(), cap);
            let after = pumped(chunks, cap);
            let bytes = chunks.last().bytes;
            &&& chunks.last().first ==> after.second == before.second
            &&& !chunks.last().first ==> after.first == before.first
            &&& before.first.is_prefix_of(after.first)
            &&& before.second.is_prefix_of(after.second)
            &&& before.seen + bytes.len() <= cap && utf8_len(lossy_text(bytes)) <= cap
                - before.kept ==> {
                &&& chunks.last().first ==> after.first == before.first + lossy_text(bytes)
                &&& !chunks.last().first ==> after.second == before.second + lossy_text(bytes)
            }
            &&& before.seen >= cap ==> utf8_len(lossy_text(seq![])) == 0 ==> after.kept
                == before.kept
        }),
{
    let before = pumped(chunks.drop_last(), cap);
    let after = pumped(chunks, cap);
    let bytes = chunks.last().bytes;
    shared_output_stays_under_the_cap(chunks.drop_last(), cap);
    assert(bytes.take(bytes.len() as int) =~= bytes);
    assert(bytes.take(0) =~= seq![]);
    assert(after.first.subrange(0, before.first.len() as int) =~= before.first);
    assert(after.second.subrange(0, before.second.len() as int) =~= before.second);
    if before.seen >= cap && utf8_len(lossy_text(seq![])) == 0 {
        assert(fitting(lossy_text(bytes.take(0)), (cap - before.kept) as nat) == lossy_text(
            bytes.take(0),
        ));
    }
}

/// Before anything comes in, nothing was read and nothing is kept.
pub proof fn streams_start_with_nothing(cap: nat)
    ensures
        pumped(seq![], cap).seen == 0,
        pumped(seq![], cap).kept == 0,
        pumped(seq![], cap).first.len() == 0,
        pumped(seq![], cap).second.len() == 0,
{
}

/// A symbol search reports each of the first hundred lines, and says where it ran
/// out of time.
pub proof fn symbol_reports_hold_the_first_lines(
    text: Seq<char>,
    timed_out: bool,
    query: Seq<char>,
    i: int,
)
    ensures
        trimmed(text).len() > 0 && 0 <= i < lines_of(text).len() && i < 100 ==> holds(
            symbol_result(text, timed_out, query),
            lines_of(text)[i],
        ),
        trimmed(text).len() == 0 ==> holds(symbol_result(text, timed_out, query), query),
        trimmed(text).len() > 0 && timed_out ==> timeout_suffix().is_suffix_of(
            symbol_result(text, timed_out, query),
        ),
{
    let report = symbol_result(text, timed_out, query);
    if trimmed(text).len() == 0 {
        if timed_out {
            lemma_stands_between(
                "symbol_search timed out after "@ + crate::text::decimal(
                    crate::code_search::SEARCH_TIMEOUT_SECS as nat,
                ) + "s with no results for '"@,
                query,
                "'."@,
            );
        } else {
            lemma_stands_between("No symbol definitions found for '"@, query, "'."@);
        }
    } else {
        let lines = lines_of(text);
        let first = if lines.len() <= SYMBOL_MAX_RESULTS {
            lines
        } else {
            lines.take(SYMBOL_MAX_RESULTS as int)
        };
        let sorted = definitions_first(first);
        let body = joined(sorted, "\n"@);
        let late = if timed_out {
            timeout_suffix()
        } else {
            seq![]
        };
        assert(report == body + late);
        assert(report.subrange(report.len() - late.len(), report.len() as int) =~= late);
        if 0 <= i < lines.len() && i < 100 {
            assert(first[i] == lines[i]);
            sorting_keeps_the_lines(first, 0, 0);
            first.to_multiset_ensures();
            sorted.to_multiset_ensures();
            assert(first.contains(first[i]));
            assert(first.to_multiset().count(first[i]) > 0);
            assert(sorted.contains(first[i]));
            let k = choose|k: int| 0 <= k < sorted.len() && sorted[k] == first[i];
            lemma_joined_holds(sorted, "\n"@, k);
            assert(report.subrange(0, body.len() as int) =~= body);
            assert(stands_at(report, body, 0));
            lemma_held_in_part(report, body, lines[i], 0);
        }
    }
}

/// However a symbol search is carried out, it searches the same place for the
/// same pattern under the same filter, with regard to case and without context.
pub proof fn symbol_searches_ask_alike(
    request: SymbolRequest,
    cwd: Seq<char>,
    facts: PathFacts,
)
    ensures
        symbol_plan(request, cwd, facts, true) is Ok <==> symbol_plan(
            request,
            cwd,
            facts,
            false,
        ) is Ok,
        symbol_plan(request, cwd, facts, false) matches Ok(SearchPlanView::InProcess {
            pattern,
            root,
            glob,
            context_lines,
            case_insensitive,
            max_results,
        }) ==> (symbol_plan(request, cwd, facts, true) matches Ok(SearchPlanView::Ripgrep(args))
            && args.len() >= 3 && args[args.len() - 3] == "--"@ && args[args.len() - 2] == pattern
            && args[args.len() - 1] == root && (glob matches Some(g) ==> args[4] == "--glob"@
            && args[5] == g) && glob == opt_view(request.glob) && context_lines == 0
            && !case_insensitive && max_results == 100),
{
}

/// What the search passes over by its name, it passes over in any case; what the
/// guard refuses it passes over whatever its name is, and nothing else.
pub proof fn searches_pass_over_secrets(
    name: Seq<char>,
    other: Seq<char>,
    path: Seq<char>,
    canonical: Option<Seq<char>>,
    blocked: Seq<Seq<char>>,
)
    requires
        lowered(name) == lowered(other),
    ensures
        skipped_entry(Some(name), path, canonical, blocked) == skipped_entry(
            Some(other),
            path,
            canonical,
            blocked,
        ),
        sensitivity(path, canonical, blocked) is Err ==> skipped_entry(
            Some(name),
            path,
            canonical,
            blocked,
        ) && skipped_entry(None, path, canonical, blocked),
        lowered(name) == "credentials"@ ==> skipped_entry(Some(name), path, canonical, blocked),
        sensitivity(path, canonical, blocked) is Ok && !occurs(lowered(name), "credentials"@)
            ==> !skipped_entry(Some(name), path, canonical, blocked),
{
    if lowered(name) == "credentials"@ {
        let s = lowered(name);
        assert(s.subrange(0, s.len() as int) =~= s);
        assert(crate::text::occurs_at(s, "credentials"@, 0));
    }
}

/// A line is shown as it came, but for the NUL behind its path.
pub proof fn lines_are_shown_as_they_came(line: Seq<char>, i: int)
    requires
        0 <= i < line.len(),
        line[i] != '\0',
    ensures
        shown_as(line).len() == line.len(),
        shown_as(line)[i] == line[i],
{
    lemma_nul(line);
}

proof fn lemma_nul(s: Seq<char>)
    ensures
        crate::code_search::before_nul(s) <= s.len(),
        crate::code_search::before_nul(s) < s.len() ==> s[crate::code_search::before_nul(s) as int]
            == '\0',
    decreases s.len(),
{
    if s.len() > 0 && s[0] != '\0' {
        lemma_nul(s.skip(1));
    }
}

// ---------------------------------------------------------------------------
// Keys and paths
// ---------------------------------------------------------------------------

/// The six bits that a character of the URL-safe alphabet stands for.
pub open spec fn bits_of(c: char) -> int {
    if 'A' <= c && c <= 'Z' {
        c as int - 65
    } else if 'a' <= c && c <= 'z' {
        c as int - 71
    } else if '0' <= c && c <= '9' {
        c as int + 4
    } else if c == '-' {
        62
    } else {
        63
    }
}

proof fn lemma_sextet(bytes: Seq<u8>, k: int)
    requires
        0 <= k < base64_url(bytes).len(),
    ensures
        0 <= sextet(bytes, k) < 64,
        bits_of(base64_url(bytes)[k]) == sextet(bytes, k),
{
    let at = 3 * (k / 4);
    let group = byte_or_zero(bytes, at) * 65536 + byte_or_zero(bytes, at + 1) * 256 + byte_or_zero(
        bytes,
        at + 2,
    );
    assert(0 <= group < 16777216);
    let v = sextet(bytes, k);
    assert(0 <= v < 64);
    assert(base64_url(bytes)[k] == sextet_char(v));
}

proof fn lemma_group(a: int, b: int, c: int)
    requires
        0 <= a < 256,
        0 <= b < 256,
        0 <= c < 256,
    ensures
        ({
            let g = a * 65536 + b * 256 + c;
            &&& (g / 262144) * 4 + ((g / 4096) % 64) / 16 == a
            &&& (((g / 4096) % 64) % 16) * 16 + ((g / 64) % 64) / 4 == b
            &&& (((g / 64) % 64) % 4) * 64 + g % 64 == c
        }),
{
    let g = a * 65536 + b * 256 + c;
    let (a1, a0) = (a / 4, a % 4);
    let (b1, b0) = (b / 16, b % 16);
    let (c1, c0) = (c / 64, c % 64);
    lemma_fundamental_div_mod_converse(g, 262144, a1, a0 * 65536 + b * 256 + c);
    lemma_fundamental_div_mod_converse(g, 4096, a * 16 + b1, b0 * 256 + c);
    lemma_fundamental_div_mod_converse(a * 16 + b1, 64, a1, a0 * 16 + b1);
    lemma_fundamental_div_mod_converse(g, 64, a * 1024 + b * 4 + c1, c0);
    lemma_fundamental_div_mod_converse(a * 1024 + b * 4 + c1, 64, a * 16 + b1, b0 * 4 + c1);
    lemma_fundamental_div_mod_converse(a0 * 16 + b1, 16, a0, b1);
    lemma_fundamental_div_mod_converse(b0 * 4 + c1, 4, b0, c1);
}

/// The bytes can be read back from their encoding: four characters hold three
/// bytes, six bits each.
pub proof fn encodings_read_back(bytes: Seq<u8>, i: int)
    requires
        0 <= i < bytes.len(),
    ensures
        ({
            let text = base64_url(bytes);
            let k = 4 * (i / 3);
            &&& i % 3 == 0 ==> bytes[i] as int == bits_of(text[k]) * 4 + bits_of(text[k + 1]) / 16
            &&& i % 3 == 1 ==> bytes[i] as int == (bits_of(text[k + 1]) % 16) * 16 + bits_of(
                text[k + 2],
            ) / 4
            &&& i % 3 == 2 ==> bytes[i] as int == (bits_of(text[k + 2]) % 4) * 64 + bits_of(
                text[k + 3],
            )
        }),
        base64_url(bytes).len() * 3 >= bytes.len() * 4,
{
    let k = 4 * (i / 3);
    let at = 3 * (i / 3);
    let a = byte_or_zero(bytes, at);
    let b = byte_or_zero(bytes, at + 1);
    let c = byte_or_zero(bytes, at + 2);
    lemma_group(a, b, c);
    lemma_sextet(bytes, k);
    lemma_sextet(bytes, k + 1);
    assert(k / 4 == i / 3 && (k + 1) / 4 == i / 3 && (k + 2) / 4 == i / 3 && (k + 3) / 4 == i / 3);
    assert(k % 4 == 0 && (k + 1) % 4 == 1 && (k + 2) % 4 == 2 && (k + 3) % 4 == 3);
    if i % 3 >= 1 {
        lemma_sextet(bytes, k + 2);
    }
    if i % 3 == 2 {
        lemma_sextet(bytes, k + 3);
    }
}

/// A path below the home directory goes behind it, in whichever of the three
/// ways it is written; any other is left alone.
pub proof fn home_is_put_in_place(rest: Seq<char>, s: Seq<char>, home: Seq<char>)
    ensures
        user_expanded("~/"@ + rest, Some(home)) == Some(path_join(home, rest)),
        user_expanded("$HOME/"@ + rest, Some(home)) == Some(path_join(home, rest)),
        user_expanded("${HOME}/"@ + rest, Some(home)) == Some(path_join(home, rest)),
        user_expanded("~"@, Some(home)) == Some(home),
        user_expanded("$HOME"@, Some(home)) == Some(home),
        user_expanded("${HOME}"@, Some(home)) == Some(home),
        s.len() == 0 || (s[0] != '~' && s[0] != '$') ==> user_expanded(s, Some(home)) is None,
        user_expanded(s, None) is None,
{
    reveal_strlit("~/");
    reveal_strlit("$HOME/");
    reveal_strlit("${HOME}/");
    reveal_strlit("~");
    reveal_strlit("$HOME");
    reveal_strlit("${HOME}");
    let a = "~/"@ + rest;
    let b = "$HOME/"@ + rest;
    let c = "${HOME}/"@ + rest;
    assert(a.subrange(0, 2) =~= "~/"@);
    assert(a.skip(2) =~= rest);
    assert(a[0] == '~' && a[1] == '/');
    assert(b.subrange(0, 6) =~= "$HOME/"@);
    assert(b.skip(6) =~= rest);
    assert(b[0] == '$' && b[1] == 'H' && b[5] == '/');
    assert(c.subrange(0, 8) =~= "${HOME}/"@);
    assert(c.skip(8) =~= rest);
    assert(c[0] == '$' && c[1] == '{' && c[7] == '/');
    assert("~"@.len() == 1 && "$HOME"@.len() == 5 && "${HOME}"@.len() == 7);
    assert("~"@[0] == '~' && "$HOME"@[0] == '$' && "${HOME}"@[0] == '$');
    assert("~/"@[0] == '~' && "$HOME/"@[0] == '$' && "${HOME}/"@[0] == '$');
    assert("${HOME}"@[1] == '{' && "$HOME"@[1] == 'H');
    if s.len() > 0 && s[0] != '~' && s[0] != '$' {
        if "~/"@.is_prefix_of(s) {
            assert(s[0] == "~/"@[0]);
        }
        if "$HOME/"@.is_prefix_of(s) {
            assert(s[0] == "$HOME/"@[0]);
        }
        if "${HOME}/"@.is_prefix_of(s) {
            assert(s[0] == "${HOME}/"@[0]);
        }
    }
    if "$HOME/"@.is_prefix_of(c) {
        assert(c[1] == "$HOME/"@[1]);
    }
}

// ---------------------------------------------------------------------------
// Windows
// ---------------------------------------------------------------------------

/// What a window shows is what was put there last; the others show what they
/// showed.
pub proof fn windows_show_what_was_put_there(
    map: Map<u64, u64>,
    list: Seq<KnownWindow>,
    i: int,
    other: u64,
)
    requires
        0 <= i < list.len(),
        forall|j: int| i < j < list.len() ==> (#[trigger] list[j]).window != list[i].window,
    ensures
        map_with(map, list).contains_key(list[i].window),
        map_with(map, list)[list[i].window] == list[i].mux_window,
        (forall|j: int| 0 <= j < list.len() ==> (#[trigger] list[j]).window != other) ==> {
            &&& map_with(map, list).contains_key(other) == map.contains_key(other)
            &&& map_with(map, list)[other] == map[other]
        },
    decreases list.len(),
{
    lemma_untouched(map, list, other);
    let rest = list.drop_last();
    if i < rest.len() {
        assert forall|j: int| i < j < rest.len() implies (#[trigger] rest[j]).window
            != rest[i].window by {
            assert(rest[j] == list[j]);
        }
        windows_show_what_was_put_there(map, rest, i, other);
        assert(list[list.len() - 1].window != list[i].window);
    }
}

proof fn lemma_untouched(map: Map<u64, u64>, list: Seq<KnownWindow>, other: u64)
    ensures
        (forall|j: int| 0 <= j < list.len() ==> (#[trigger] list[j]).window != other) ==> {
            &&& map_with(map, list).contains_key(other) == map.contains_key(other)
            &&& map_with(map, list)[other] == map[other]
        },
    decreases list.len(),
{
    if list.len() > 0 && (forall|j: int|
        0 <= j < list.len() ==> (#[trigger] list[j]).window != other) {
        let rest = list.drop_last();
        assert forall|j: int| 0 <= j < rest.len() implies (#[trigger] rest[j]).window != other by {
            assert(rest[j] == list[j]);
        }
        lemma_untouched(map, rest, other);
        assert(list[list.len() - 1].window != other);
    }
}

/// A set loses exactly the members that belong to the windows of the list.
pub proof fn sets_lose_what_the_windows_show(set: Set<u64>, list: Seq<KnownWindow>, x: u64)
    ensures
        set_without(set, list).contains(x) <==> set.contains(x) && (forall|j: int|
            0 <= j < list.len() ==> (#[trigger] list[j]).mux_window != x),
    decreases list.len(),
{
    if list.len() > 0 {
        let rest = list.drop_last();
        sets_lose_what_the_windows_show(set, rest, x);
        if forall|j: int| 0 <= j < list.len() ==> (#[trigger] list[j]).mux_window != x {
            assert forall|j: int| 0 <= j < rest.len() implies (#[trigger] rest[j]).mux_window
                != x by {
                assert(rest[j] == list[j]);
            }
            assert(list[list.len() - 1].mux_window != x);
        }
        if (forall|j: int| 0 <= j < rest.len() ==> (#[trigger] rest[j]).mux_window != x)
            && list.last().mux_window != x {
            assert forall|j: int| 0 <= j < list.len() implies (#[trigger] list[j]).mux_window
                != x by {
                if j < rest.len() {
                    assert(rest[j] == list[j]);
                }
            }
        }
    }
}

/// A single window is looked up by its namespace.
pub proof fn single_windows_go_by_namespace(list: Seq<SingletonState>, i: int)
    requires
        namespaces_differ(list),
        0 <= i < list.len(),
    ensures
        singletons(list).contains_key(list[i].namespace@),
        singletons(list)[list[i].namespace@].window_id == list[i].window_id,
        singletons(list)[list[i].namespace@].pending == list[i].pending,
    decreases list.len(),
{
    let rest = list.drop_last();
    if i < rest.len() {
        assert(namespaces_differ(rest)) by {
            assert forall|a: int, b: int| 0 <= a < b < rest.len() implies (
            #[trigger] rest[a]).namespace@ != (#[trigger] rest[b]).namespace@ by {
                assert(rest[a] == list[a] && rest[b] == list[b]);
            }
        }
        single_windows_go_by_namespace(rest, i);
        assert(rest[i] == list[i]);
        assert(list[i].namespace@ != list[list.len() - 1].namespace@);
    }
}

/// A question that is answered with yes has all its steps taken, in order, before
/// its overlay goes; answered with no, the overlay goes and nothing else happens.
pub proof fn answers_are_carried_out(
    confirmed: bool,
    steps: Seq<ConfirmStep>,
    cancel: ConfirmStep,
)
    ensures
        and_cancel(confirmed, steps, cancel).last() == cancel,
        confirmed ==> and_cancel(confirmed, steps, cancel).drop_last() == steps,
        !confirmed ==> and_cancel(confirmed, steps, cancel).len() == 1,
{
    if confirmed {
        assert(and_cancel(confirmed, steps, cancel).drop_last() =~= steps);
    }
}

// ---------------------------------------------------------------------------
// Buffers
// ---------------------------------------------------------------------------

proof fn lemma_layer(layer: int, vb: Seq<TripleVertexBuffer>, n: nat, g: Growth)
    requires
        n <= vb.len(),
    ensures
        layer_growths(layer, vb, n).contains(g) <==> exists|b: int|
            0 <= b < n && (#[trigger] vb[b]).next_quad > vb[b].capacity && g == (Growth {
                layer: layer as usize,
                buffer: b as usize,
                needed: vb[b].next_quad,
                quads: rounded_up(vb[b].next_quad) as usize,
            }),
    decreases n,
{
    if n > 0 {
        lemma_layer(layer, vb, (n - 1) as nat, g);
        let before = layer_growths(layer, vb, (n - 1) as nat);
        let own = buffer_growth(layer, n - 1, vb[n - 1]);
        let all = layer_growths(layer, vb, n);
        assert(all == before + own);
        if before.contains(g) {
            let k = choose|k: int| 0 <= k < before.len() && before[k] == g;
            assert(all[k] == g);
        } else if own.contains(g) {
            assert(own[0] == g);
            assert(all[before.len() as int] == g);
            assert(vb[n - 1].next_quad > vb[n - 1].capacity);
        } else {
            if all.contains(g) {
                let k = choose|k: int| 0 <= k < all.len() && all[k] == g;
                if k < before.len() {
                    assert(before[k] == g);
                } else {
                    assert(own[k - before.len()] == g);
                }
            }
            if vb[n - 1].next_quad > vb[n - 1].capacity {
                assert(own.contains(own[0]));
            }
        }
    }
}

/// Every buffer of a layer that is asked for more than it has grows, and no
/// other, to as many quads as were asked for or more.
pub proof fn full_buffers_grow(layer: int, vb: Seq<TripleVertexBuffer>, b: int)
    requires
        vb.len() == 3,
        0 <= b < 3,
        vb[b].next_quad + 128 <= usize::MAX,
    ensures
        vb[b].next_quad > vb[b].capacity <==> exists|k: int|
            0 <= k < layer_growths(layer, vb, 3).len() && (#[trigger] layer_growths(
                layer,
                vb,
                3,
            )[k]).buffer == b,
        forall|k: int|
            0 <= k < layer_growths(layer, vb, 3).len() && (#[trigger] layer_growths(
                layer,
                vb,
                3,
            )[k]).buffer == b ==> layer_growths(layer, vb, 3)[k].needed == vb[b].next_quad
                && layer_growths(layer, vb, 3)[k].quads >= vb[b].next_quad,
{
    let all = layer_growths(layer, vb, 3);
    let n = vb[b].next_quad as int;
    assert(n <= (n + 127) / 128 * 128 < n + 128) by (nonlinear_arith)
        requires
            n >= 0,
    ;
    let g = Growth {
        layer: layer as usize,
        buffer: b as usize,
        needed: vb[b].next_quad,
        quads: rounded_up(vb[b].next_quad) as usize,
    };
    if vb[b].next_quad > vb[b].capacity {
        lemma_layer(layer, vb, 3, g);
        let k = choose|k: int| 0 <= k < all.len() && all[k] == g;
        assert(all[k].buffer == b);
    }
    assert forall|k: int| 0 <= k < all.len() && (#[trigger] all[k]).buffer == b implies all[k]
        == g && vb[b].next_quad > vb[b].capacity by {
        assert(all.contains(all[k]));
        lemma_layer(layer, vb, 3, all[k]);
    }
}

// ---------------------------------------------------------------------------
// Code and memories
// ---------------------------------------------------------------------------

/// The rows of code stand one block behind the other, each row once.
pub proof fn code_keeps_its_rows(list: Seq<(Seq<Seq<SpanView>>, DiffKind)>, i: int, r: int)
    requires
        0 <= i < list.len(),
        0 <= r < list[i].0.len(),
    ensures
        ({
            let before = placed_code(list.take(i)).len() as int;
            &&& before + r < placed_code(list).len()
            &&& placed_code(list)[before + r] == (ShownView::Text {
                segments: list[i].0[r],
                role: crate::chat_stream::Role::Assistant,
                block: diff_style(list[i].1),
            })
        }),
    decreases list.len(),
{
    let rest = list.drop_last();
    let all = placed_code(list);
    if i < rest.len() {
        code_keeps_its_rows(rest, i, r);
        assert(rest.take(i) =~= list.take(i));
        assert(rest[i] == list[i]);
        let before = placed_code(list.take(i)).len() as int;
        assert(all[before + r] == placed_code(rest)[before + r]);
    } else {
        assert(list.take(i) =~= rest);
        let own = placed_rows(list[i].0, ShapeView::Block(diff_style(list[i].1)));
        assert(all[placed_code(rest).len() + r] == own[r]);
    }
}

/// The entries of a memory are counted line by line: one for each that begins
/// with a dash.
pub proof fn memories_are_counted_by_dashes(a: Seq<Seq<char>>, line: Seq<char>, b: Seq<Seq<char>>)
    ensures
        entry_count(a + b) == entry_count(a) + entry_count(b),
        trimmed(line).len() > 0 && trimmed(line)[0] == '-' ==> entry_count(seq![line]) == 1,
        trimmed(line).len() == 0 || trimmed(line)[0] != '-' ==> entry_count(seq![line]) == 0,
    decreases b.len(),
{
    assert(seq![line].drop_last() =~= seq![]);
    assert(entry_count(seq![line].drop_last()) == 0);
    if b.len() == 0 {
        assert(a + b =~= a);
    } else {
        memories_are_counted_by_dashes(a, line, b.drop_last());
        assert((a + b).drop_last() =~= a + b.drop_last());
    }
}

} // verus!
