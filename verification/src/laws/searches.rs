//! Code search: what a search asks for, what it finds, and what it reports.
use crate::code_search::{
    FallbackTruncation, Found, GrepRequest, Printed, SearchEnd, SearchPlanView, defines,
    definition_patterns, definitions_first, exclusion_args, file_found, files_found, filter_args,
    grep_fallback_result, grep_options, grep_plan, grep_result, is_regex_meta, lines_where, printed,
    regex_escaped, regex_matches, rendered_line, scanned, shown_line, symbol_options,
    symbol_pattern_of, timeout_suffix, truncation_notice,
};
use crate::laws::{holds, lemma_held_in_part, lemma_stands_between, stands_at};
use crate::paths::{PathErrorView, PathFacts, checked};
use crate::text::{decimal, joined, opt_view, trimmed};
use vstd::prelude::*;
use vstd::string::*;

verus! {

// ---------------------------------------------------------------------------
// What is asked for
// ---------------------------------------------------------------------------

/// Whether two arguments stand side by side.
pub open spec fn holds_pair(args: Seq<Seq<char>>, a: Seq<char>, b: Seq<char>) -> bool {
    exists|k: int| 0 <= k && k + 1 < args.len() && #[trigger] args[k] == a && args[k + 1] == b
}

proof fn lemma_exclusions_only(globs: Seq<Seq<char>>, k: int)
    requires
        0 <= k < exclusion_args(globs).len(),
    ensures
        exclusion_args(globs)[k] == "--iglob"@ || globs.contains(exclusion_args(globs)[k]),
    decreases globs.len(),
{
    if globs.len() > 0 {
        let rest = globs.drop_last();
        let before = exclusion_args(rest);
        if k < before.len() {
            lemma_exclusions_only(rest, k);
            if rest.contains(before[k]) {
                let i = choose|i: int| 0 <= i < rest.len() && rest[i] == before[k];
                assert(globs[i] == before[k]);
            }
        } else {
            assert(globs[globs.len() - 1] == globs.last());
        }
    }
}

/// Ripgrep is told to ignore case exactly where the search ignores it; it is
/// told the context, the limit and the filter that were asked for, to number its
/// lines and to end paths so that they can be told from the text.
pub proof fn ripgrep_is_told_what_was_asked(
    context_lines: nat,
    max_results: nat,
    case_insensitive: bool,
    glob: Option<Seq<char>>,
    globs: Seq<Seq<char>>,
)
    requires
        glob != Some("--ignore-case"@),
        !globs.contains("--ignore-case"@),
    ensures
        ({
            let options = grep_options(context_lines, max_results, case_insensitive, glob, globs);
            &&& options.contains("--ignore-case"@) <==> case_insensitive
            &&& options.contains("--context="@ + decimal(context_lines))
            &&& options.contains("--max-count="@ + decimal(max_results))
            &&& options.contains("--line-number"@) && options.contains("--null"@)
            &&& options.contains("--no-heading"@) && options.contains("--color=never"@)
            &&& glob matches Some(g) ==> holds_pair(options, "--glob"@, g)
        }),
{
    reveal_strlit("--ignore-case");
    reveal_strlit("--context=");
    reveal_strlit("--max-count=");
    reveal_strlit("--line-number");
    reveal_strlit("--no-heading");
    reveal_strlit("--null");
    reveal_strlit("--color=never");
    reveal_strlit("--glob");
    reveal_strlit("--iglob");
    let options = grep_options(context_lines, max_results, case_insensitive, glob, globs);
    let ignore = "--ignore-case"@;
    let context = "--context="@ + decimal(context_lines);
    let limit = "--max-count="@ + decimal(max_results);
    assert(options[0] == "--line-number"@ && options[1] == "--no-heading"@ && options[2]
        == "--null"@ && options[3] == "--color=never"@ && options[4] == context && options[5]
        == limit);
    assert(context[2] == 'c' && limit[2] == 'm' && ignore[2] == 'i');
    let n: int = if case_insensitive {
        1
    } else {
        0
    };
    if case_insensitive {
        assert(options[6] == ignore);
    }
    let f = filter_args(glob).len() as int;
    if let Some(g) = glob {
        assert(options[6 + n] == "--glob"@ && options[6 + n + 1] == g);
    }
    assert forall|k: int| 0 <= k < options.len() && options[k] == ignore implies case_insensitive by {
        if k >= 6 + n + f {
            assert(options[k] == exclusion_args(globs)[k - 6 - n - f]);
            lemma_exclusions_only(globs, k - 6 - n - f);
            assert("--iglob"@.len() != ignore.len());
        } else if k >= 6 + n {
            assert(options[k] == filter_args(glob)[k - 6 - n]);
            assert("--glob"@.len() != ignore.len());
        } else if k < 6 {
            assert("--line-number"@[2] == 'l' && "--no-heading"@[2] == 'n' && "--null"@[2] == 'n'
                && "--color=never"@[2] == 'c');
            assert(options[k][2] != ignore[2]);
        }
    }
}

/// A search is the same search with ripgrep and without it: for the same
/// pattern, from the same root, with the same filter, context, case and limit.
/// It is refused exactly where its path is.
pub proof fn searches_ask_alike_in_process(
    request: GrepRequest,
    cwd: Seq<char>,
    facts: PathFacts,
)
    ensures
        match checked(request.path@, cwd, facts) {
            Err(e) => {
                &&& grep_plan(request, cwd, facts, true) == Err::<SearchPlanView, PathErrorView>(e)
                &&& grep_plan(request, cwd, facts, false) == Err::<SearchPlanView, PathErrorView>(
                    e,
                )
            },
            Ok(root) => {
                &&& grep_plan(request, cwd, facts, false) matches Ok(SearchPlanView::InProcess {
                    pattern,
                    root: from,
                    glob,
                    context_lines,
                    case_insensitive,
                    max_results,
                }) && pattern == request.pattern@ && from == root && glob == opt_view(request.glob)
                    && context_lines == request.context_lines && case_insensitive
                    == request.case_insensitive && max_results == request.max_results
                &&& grep_plan(request, cwd, facts, true) matches Ok(SearchPlanView::Ripgrep(args))
                    && args.len() >= 3 && args[args.len() - 3] == "--"@ && args[args.len() - 2]
                    == request.pattern@ && args[args.len() - 1] == root
            },
        },
{
}

/// The characters that mean something in a pattern.
pub open spec fn is_special(c: char) -> bool {
    "\\.+*?()|[]{}^$"@.contains(c)
}

/// A text is made a pattern character by character: those that mean something in
/// a pattern get a backslash, the others stand for themselves.
pub proof fn escaping_goes_by_character(a: Seq<char>, b: Seq<char>, c: char)
    ensures
        regex_escaped(a + b) == regex_escaped(a) + regex_escaped(b),
        regex_escaped(seq![c]) == if is_special(c) {
            seq!['\\', c]
        } else {
            seq![c]
        },
        regex_escaped(seq![]) == Seq::<char>::empty(),
{
    lemma_escaped_concat(a, b);
    reveal_strlit("\\.+*?()|[]{}^$");
    let s = "\\.+*?()|[]{}^$"@;
    assert(s[0] == '\\' && s[1] == '.' && s[2] == '+' && s[3] == '*' && s[4] == '?' && s[5] == '('
        && s[6] == ')' && s[7] == '|' && s[8] == '[' && s[9] == ']' && s[10] == '{' && s[11] == '}'
        && s[12] == '^' && s[13] == '$');
    assert(is_special(c) == is_regex_meta(c));
    assert(seq![c].drop_last() =~= seq![]);
    reveal_with_fuel(regex_escaped, 2);
    assert(regex_escaped(seq![c]) =~= if is_special(c) {
        seq!['\\', c]
    } else {
        seq![c]
    });
}

proof fn lemma_escaped_concat(a: Seq<char>, b: Seq<char>)
    ensures
        regex_escaped(a + b) == regex_escaped(a) + regex_escaped(b),
    decreases b.len(),
{
    if b.len() == 0 {
        assert(a + b =~= a);
        assert(regex_escaped(a) + regex_escaped(b) =~= regex_escaped(a));
    } else {
        lemma_escaped_concat(a, b.drop_last());
        assert((a + b).drop_last() =~= a + b.drop_last());
        assert((a + b).last() == b.last());
        assert(regex_escaped(a + b) =~= regex_escaped(a) + regex_escaped(b));
    }
}

/// Every alternative of a search for a symbol asks for its name, and the
/// alternatives are tried one or the other. A search for no kind in particular
/// tries all that one for a function tries, and types and modules besides.
pub proof fn symbols_are_searched_by_name(kind: Seq<char>, name: Seq<char>, i: int)
    requires
        0 <= i < definition_patterns(kind, name).len(),
    ensures
        holds(definition_patterns(kind, name)[i], name),
        kind == "function"@ ==> definition_patterns(""@, name).contains(
            definition_patterns(kind, name)[i],
        ),
        kind != "function"@ && kind != "type"@ && kind != "class"@ && kind != "method"@
            ==> definition_patterns(kind, name).len() == 4,
{
    let p = definition_patterns(kind, name);
    reveal_strlit("");
    reveal_strlit("function");
    reveal_strlit("type");
    reveal_strlit("class");
    reveal_strlit("method");
    let a = r"(fn|function|def|func)\s+"@;
    let b = r"(const|let|var)\s+"@;
    let c = r"\s*=\s*(async\s+)?\("@;
    let none = Seq::<char>::empty();
    assert(a + name =~= a + name + none);
    lemma_stands_between(a, name, none);
    lemma_stands_between(b, name, c);
    let d = r"(type|struct|enum|interface|typedef)\s+"@;
    let e = r"(class|struct)\s+"@;
    let f = r"(fn|def|func|function)\s+"@;
    let g = r"(type|struct|enum|interface|class|trait|typedef)\s+"@;
    let h = r"(pub\s+)?(mod|module)\s+"@;
    assert(d + name =~= d + name + none);
    assert(e + name =~= e + name + none);
    assert(f + name =~= f + name + none);
    assert(g + name =~= g + name + none);
    assert(h + name =~= h + name + none);
    lemma_stands_between(d, name, none);
    lemma_stands_between(e, name, none);
    lemma_stands_between(f, name, none);
    lemma_stands_between(g, name, none);
    lemma_stands_between(h, name, none);
    lemma_stands_between(r"\."@, name, r"\s*=\s*function"@);
    let any = definition_patterns(""@, name);
    assert(""@.len() == 0 && "function"@.len() > 0 && "type"@.len() > 0 && "class"@.len() > 0
        && "method"@.len() > 0);
    assert(any[0] == a + name && any[1] == b + name + c);
}

/// The pattern of a search for a symbol holds its escaped name.
pub proof fn symbol_patterns_hold_the_name(query: Seq<char>, kind: Seq<char>)
    ensures
        holds(symbol_pattern_of(query, kind), regex_escaped(query)),
{
    let name = regex_escaped(query);
    let parts = definition_patterns(kind, name);
    symbols_are_searched_by_name(kind, name, 0);
    lemma_joined_holds(parts, "|"@, 0);
    let whole = symbol_pattern_of(query, kind);
    let at = choose|at: int| #[trigger] stands_at(whole, parts[0], at);
    lemma_held_in_part(whole, parts[0], name, at);
}

pub(crate) proof fn lemma_joined_holds(parts: Seq<Seq<char>>, sep: Seq<char>, i: int)
    requires
        0 <= i < parts.len(),
    ensures
        holds(joined(parts, sep), parts[i]),
    decreases parts.len(),
{
    let all = joined(parts, sep);
    let rest = parts.drop_last();
    if parts.len() == 1 {
        assert(all =~= Seq::<char>::empty() + parts[i] + Seq::<char>::empty());
        lemma_stands_between(seq![], parts[i], seq![]);
    } else if i == parts.len() - 1 {
        assert(all =~= (joined(rest, sep) + sep) + parts[i] + Seq::<char>::empty());
        lemma_stands_between(joined(rest, sep) + sep, parts[i], seq![]);
    } else {
        lemma_joined_holds(rest, sep, i);
        assert(rest[i] == parts[i]);
        assert(all.subrange(0, joined(rest, sep).len() as int) =~= joined(rest, sep));
        assert(stands_at(all, joined(rest, sep), 0));
        lemma_held_in_part(all, joined(rest, sep), parts[i], 0);
    }
}

// ---------------------------------------------------------------------------
// What is found in process
// ---------------------------------------------------------------------------

/// The scan of a file takes matching lines only, in order and not more than
/// there is room for; it reports that it hit the limit exactly where it left a
/// matching line out, and then it took as many as there is room for, the first
/// ones.
pub proof fn scans_take_the_first_matches(
    source: (Seq<char>, bool),
    lines: Seq<Seq<char>>,
    n: nat,
    room: int,
)
    requires
        n <= lines.len(),
        room >= 0,
    ensures
        ({
            let (hits, limited) = scanned(source, lines, n, room);
            &&& hits.len() <= room
            &&& forall|k: int|
                0 <= k < hits.len() ==> 0 <= #[trigger] hits[k] < n && regex_matches(
                    source,
                    lines[hits[k]],
                )
            &&& forall|a: int, b: int|
                0 <= a < b < hits.len() ==> #[trigger] hits[a] < #[trigger] hits[b]
            &&& limited ==> hits.len() == room
            &&& limited <==> exists|i: int|
                0 <= i < n && regex_matches(source, #[trigger] lines[i]) && !hits.contains(i)
            &&& forall|i: int|
                0 <= i < n && regex_matches(source, #[trigger] lines[i]) && !hits.contains(i)
                    ==> forall|k: int| 0 <= k < hits.len() ==> #[trigger] hits[k] < i
        }),
    decreases n,
{
    if n > 0 {
        scans_take_the_first_matches(source, lines, (n - 1) as nat, room);
        let (old_hits, was) = scanned(source, lines, (n - 1) as nat, room);
        let (hits, limited) = scanned(source, lines, n, room);
        let last = n - 1;
        if !was && regex_matches(source, lines[last]) && old_hits.len() < room {
            assert(hits == old_hits.push(last));
            assert(hits[hits.len() - 1] == last);
            assert forall|i: int|
                0 <= i < n && regex_matches(source, #[trigger] lines[i]) implies hits.contains(
                i,
            ) by {
                if i < last {
                    assert(old_hits.contains(i));
                    let k = choose|k: int| 0 <= k < old_hits.len() && old_hits[k] == i;
                    assert(hits[k] == i);
                }
            }
        } else {
            assert(hits == old_hits);
            if regex_matches(source, lines[last]) {
                assert(!hits.contains(last));
                assert(limited);
            }
            if was {
                let i = choose|i: int|
                    0 <= i < n - 1 && regex_matches(source, #[trigger] lines[i])
                        && !old_hits.contains(i);
                assert(!hits.contains(i));
            }
        }
    }
}

/// A line as a search prints it: behind its path and its number, counted from
/// one, each followed by the mark.
pub open spec fn numbered_line(path: Seq<char>, i: int, mark: Seq<char>, line: Seq<char>) -> Seq<
    char,
> {
    path + mark + decimal((i + 1) as nat) + mark + line
}

/// Whether some match is so near that the line is its context.
pub open spec fn near_a_match(matches: Seq<int>, context: nat, i: int) -> bool {
    exists|m: int| #[trigger] matches.contains(m) && m - context <= i <= m + context
}

proof fn lemma_near(matches: Seq<int>, context: nat, i: int)
    ensures
        shown_line(matches, context, i) == near_a_match(matches, context, i),
{
    if shown_line(matches, context, i) {
        let k = choose|k: int|
            0 <= k < matches.len() && #[trigger] matches[k] - context <= i <= matches[k] + context;
        assert(matches.contains(matches[k]));
    }
    if near_a_match(matches, context, i) {
        let m = choose|m: int| #[trigger] matches.contains(m) && m - context <= i <= m + context;
        let k = choose|k: int| 0 <= k < matches.len() && matches[k] == m;
        assert(matches[k] - context <= i <= matches[k] + context);
    }
}

/// As long as the byte budget does not stop it, a search prints every line that
/// matches behind colons and every line near a match behind dashes, in one file
/// after the other.
pub proof fn matches_and_their_context_are_printed(
    start: Printed,
    path: Seq<char>,
    lines: Seq<Seq<char>>,
    matches: Seq<int>,
    context: nat,
    n: nat,
    i: int,
)
    requires
        n <= lines.len(),
        !printed(start, path, lines, matches, context, n).stopped,
    ensures
        !start.stopped,
        start.lines.is_prefix_of(printed(start, path, lines, matches, context, n).lines),
        0 <= i < n && matches.contains(i) ==> printed(
            start,
            path,
            lines,
            matches,
            context,
            n,
        ).lines.contains(numbered_line(path, i, ":"@, lines[i])),
        0 <= i < n && !matches.contains(i) && near_a_match(matches, context, i) ==> printed(
            start,
            path,
            lines,
            matches,
            context,
            n,
        ).lines.contains(numbered_line(path, i, "-"@, lines[i])),
    decreases n,
{
    let after = printed(start, path, lines, matches, context, n);
    if n == 0 {
        assert(start.lines.subrange(0, start.lines.len() as int) =~= start.lines);
    } else {
        let before = printed(start, path, lines, matches, context, (n - 1) as nat);
        assert(!before.stopped);
        matches_and_their_context_are_printed(
            start,
            path,
            lines,
            matches,
            context,
            (n - 1) as nat,
            i,
        );
        assert(before.lines.is_prefix_of(after.lines)) by {
            assert(after.lines.subrange(0, before.lines.len() as int) =~= before.lines);
        }
        assert(start.lines.is_prefix_of(after.lines)) by {
            assert(after.lines.subrange(0, start.lines.len() as int) =~= before.lines.subrange(
                0,
                start.lines.len() as int,
            ));
        }
        let last = n - 1;
        lemma_near(matches, context, last);
        if matches.contains(last) {
            assert(near_a_match(matches, context, last));
        }
        if i == last {
            if near_a_match(matches, context, last) {
                assert(after.lines[after.lines.len() - 1] == rendered_line(
                    path,
                    lines[last],
                    last,
                    matches.contains(last),
                ));
            }
        } else if 0 <= i < n {
            let mark = if matches.contains(i) {
                ":"@
            } else {
                "-"@
            };
            let text = numbered_line(path, i, mark, lines[i]);
            if matches.contains(i) || near_a_match(matches, context, i) {
                let k = choose|k: int| 0 <= k < before.lines.len() && before.lines[k] == text;
                assert(after.lines[k] == text);
            }
        }
    }
}

/// Whether a printed line stands for a line of the file: a matching one behind
/// colons, or one near a match behind dashes.
pub open spec fn stands_for_line(
    text: Seq<char>,
    path: Seq<char>,
    lines: Seq<Seq<char>>,
    matches: Seq<int>,
    context: nat,
    i: int,
) -> bool {
    &&& 0 <= i < lines.len()
    &&& near_a_match(matches, context, i)
    &&& text == numbered_line(
        path,
        i,
        if matches.contains(i) {
            ":"@
        } else {
            "-"@
        },
        lines[i],
    )
}

/// A search prints nothing of a file but its matching lines, lines near them,
/// and separators.
pub proof fn nothing_else_is_printed(
    start: Printed,
    path: Seq<char>,
    lines: Seq<Seq<char>>,
    matches: Seq<int>,
    context: nat,
    n: nat,
    k: int,
)
    requires
        n <= lines.len(),
        start.lines.len() <= k < printed(start, path, lines, matches, context, n).lines.len(),
    ensures
        ({
            let text = printed(start, path, lines, matches, context, n).lines[k];
            text == "--"@ || exists|i: int|
                #[trigger] stands_for_line(text, path, lines, matches, context, i)
        }),
    decreases n,
{
    if n > 0 {
        let before = printed(start, path, lines, matches, context, (n - 1) as nat);
        let after = printed(start, path, lines, matches, context, n);
        let last = n - 1;
        if k < before.lines.len() {
            nothing_else_is_printed(start, path, lines, matches, context, (n - 1) as nat, k);
            assert(after.lines[k] == before.lines[k]);
        } else {
            lemma_near(matches, context, last);
            let text = after.lines[k];
            if text != "--"@ {
                assert(stands_for_line(text, path, lines, matches, context, last));
            }
        }
    }
}

/// A search that is not cut short finds every matching line of every file, and
/// counts them.
pub proof fn complete_searches_find_every_match(
    start: Found,
    source: (Seq<char>, bool),
    files: Seq<(Seq<char>, Seq<Seq<char>>)>,
    context: nat,
    max_results: nat,
    f: int,
    i: int,
)
    requires
        start.truncation is None,
        start.count <= max_results,
        files_found(start, source, files, context, max_results).truncation is None,
        0 <= f < files.len(),
        0 <= i < files[f].1.len(),
        regex_matches(source, files[f].1[i]),
    ensures
        files_found(start, source, files, context, max_results).lines.contains(
            numbered_line(files[f].0, i, ":"@, files[f].1[i]),
        ),
    decreases files.len(),
{
    let (path, lines) = files[0];
    let (hits, limited) = scanned(source, lines, lines.len(), max_results - start.count);
    let (next, stop) = file_found(start, source, path, lines, lines.len(), context, max_results);
    assert(!stop);
    let begin = Printed { lines: start.lines, bytes: start.bytes, stopped: false };
    let shown = printed(begin, path, lines, hits, context, lines.len());
    scans_take_the_first_matches(source, lines, lines.len(), max_results - start.count);
    let rest = files.drop_first();
    if f == 0 {
        assert(hits.contains(i));
        matches_and_their_context_are_printed(begin, path, lines, hits, context, lines.len(), i);
        let text = numbered_line(path, i, ":"@, lines[i]);
        let k = choose|k: int| 0 <= k < next.lines.len() && next.lines[k] == text;
        lemma_found_grows(next, source, rest, context, max_results);
        let all = files_found(start, source, files, context, max_results);
        assert(all == files_found(next, source, rest, context, max_results));
        assert(all.lines.subrange(0, next.lines.len() as int)[k] == all.lines[k]);
    } else {
        assert(rest[f - 1] == files[f]);
        complete_searches_find_every_match(
            next,
            source,
            rest,
            context,
            max_results,
            f - 1,
            i,
        );
    }
}

proof fn lemma_found_grows(
    start: Found,
    source: (Seq<char>, bool),
    files: Seq<(Seq<char>, Seq<Seq<char>>)>,
    context: nat,
    max_results: nat,
)
    requires
        start.truncation is None,
        start.count <= max_results,
        files_found(start, source, files, context, max_results).truncation is None,
    ensures
        start.lines.is_prefix_of(files_found(start, source, files, context, max_results).lines),
    decreases files.len(),
{
    let all = files_found(start, source, files, context, max_results);
    if files.len() == 0 {
        assert(all.lines.subrange(0, start.lines.len() as int) =~= start.lines);
    } else {
        let (path, lines) = files[0];
        let (hits, limited) = scanned(source, lines, lines.len(), max_results - start.count);
        let (next, stop) = file_found(
            start,
            source,
            path,
            lines,
            lines.len(),
            context,
            max_results,
        );
        let begin = Printed { lines: start.lines, bytes: start.bytes, stopped: false };
        scans_take_the_first_matches(source, lines, lines.len(), max_results - start.count);
        matches_and_their_context_are_printed(begin, path, lines, hits, context, lines.len(), 0);
        lemma_found_grows(next, source, files.drop_first(), context, max_results);
        assert(all.lines.subrange(0, start.lines.len() as int) =~= next.lines.subrange(
            0,
            start.lines.len() as int,
        ));
    }
}

/// A search counts no more matches than its limit, and says that it hit the
/// limit where a file has more matching lines than there is room for.
pub proof fn limited_searches_say_so(
    start: Found,
    source: (Seq<char>, bool),
    path: Seq<char>,
    lines: Seq<Seq<char>>,
    context: nat,
    max_results: nat,
)
    requires
        start.count <= max_results,
    ensures
        ({
            let (next, stop) = file_found(
                start,
                source,
                path,
                lines,
                lines.len(),
                context,
                max_results,
            );
            &&& start.count <= next.count <= max_results
            &&& stop ==> next.truncation is Some
            &&& !stop ==> next.truncation == start.truncation
            &&& next.truncation == Some(FallbackTruncation::ResultLimit) && start.truncation is None
                ==> next.count == max_results
        }),
{
    scans_take_the_first_matches(source, lines, lines.len(), max_results - start.count);
}

// ---------------------------------------------------------------------------
// What is reported
// ---------------------------------------------------------------------------

/// A report holds every line that was found, in order and before all else; it
/// is nothing but those lines exactly where nothing cut the search short.
pub proof fn reports_hold_every_line(
    lines: Seq<Seq<char>>,
    truncation: Option<FallbackTruncation>,
    timed_out: bool,
    max_results: nat,
    i: int,
)
    requires
        0 <= i < lines.len(),
    ensures
        joined(lines, "\n"@).is_prefix_of(
            grep_fallback_result(lines, truncation, timed_out, max_results),
        ),
        holds(grep_fallback_result(lines, truncation, timed_out, max_results), lines[i]),
        (truncation is None && !timed_out) <==> grep_fallback_result(
            lines,
            truncation,
            timed_out,
            max_results,
        ) == joined(lines, "\n"@),
{
    let report = grep_fallback_result(lines, truncation, timed_out, max_results);
    let body = joined(lines, "\n"@);
    let notice = report_notice(truncation, max_results);
    let late = if timed_out {
        timeout_suffix()
    } else {
        seq![]
    };
    reveal_strlit("\n");
    reveal_strlit("\n[... timed out after ");
    assert(report =~= body + notice + late);
    assert(report.len() == body.len() + notice.len() + late.len());
    if truncation is None && !timed_out {
        assert(report =~= body);
    }
    lemma_joined_holds(lines, "\n"@, i);
    assert(report.subrange(0, body.len() as int) =~= body);
    assert(stands_at(report, body, 0));
    lemma_held_in_part(report, body, lines[i], 0);
}

spec fn report_notice(truncation: Option<FallbackTruncation>, max_results: nat) -> Seq<char> {
    match truncation_notice(truncation, max_results) {
        Some(notice) => "\n"@ + notice,
        None => seq![],
    }
}

/// A report says what cut the search short: the limit, the budget, or the clock.
pub proof fn reports_say_what_cut_them_short(
    lines: Seq<Seq<char>>,
    truncation: Option<FallbackTruncation>,
    timed_out: bool,
    max_results: nat,
)
    requires
        lines.len() > 0,
    ensures
        truncation == Some(FallbackTruncation::ResultLimit) ==> holds(
            grep_fallback_result(lines, truncation, timed_out, max_results),
            "[... truncated at "@ + decimal(max_results) + " results]"@,
        ),
        truncation == Some(FallbackTruncation::OutputBytes) ==> holds(
            grep_fallback_result(lines, truncation, timed_out, max_results),
            "[... truncated at "@ + decimal(524_288) + " byte output budget]"@,
        ),
        timed_out ==> timeout_suffix().is_suffix_of(
            grep_fallback_result(lines, truncation, timed_out, max_results),
        ),
{
    let report = grep_fallback_result(lines, truncation, timed_out, max_results);
    let body = joined(lines, "\n"@);
    let late = if timed_out {
        timeout_suffix()
    } else {
        seq![]
    };
    let notice = report_notice(truncation, max_results);
    assert(report =~= body + notice + late);
    assert(report.subrange(report.len() - late.len(), report.len() as int) =~= late);
    if let Some(text) = truncation_notice(truncation, max_results) {
        assert(report =~= (body + "\n"@) + text + late);
        lemma_stands_between(body + "\n"@, text, late);
    }
}

/// A report of what ripgrep found holds every line, and says exactly where it
/// was cut short. It is silent only where the search was canceled before
/// anything was found.
pub proof fn ripgrep_reports_hold_every_line(
    lines: Seq<Seq<char>>,
    truncated: bool,
    end: SearchEnd,
    stderr: Seq<char>,
    max_results: nat,
    i: int,
)
    ensures
        grep_result(lines, truncated, end, stderr, max_results) is None <==> lines.len() == 0
            && end == SearchEnd::Canceled,
        0 <= i < lines.len() ==> (grep_result(lines, truncated, end, stderr, max_results)
            matches Some(report) && holds(report, lines[i]) && (truncated ==> holds(
            report,
            "\n[... truncated at "@ + decimal(max_results) + " results]"@,
        )) && (end == SearchEnd::Canceled ==> "\n[... canceled by user]"@.is_suffix_of(report))
            && (end == SearchEnd::TimedOut ==> timeout_suffix().is_suffix_of(report)) && (
        !truncated && end == SearchEnd::Exited ==> report == joined(lines, "\n"@))),
        lines.len() == 0 && end == SearchEnd::Exited && trimmed(stderr).len() == 0
            ==> grep_result(lines, truncated, end, stderr, max_results) == Some(
            "No matches found."@,
        ),
{
    if lines.len() > 0 {
        let body = joined(lines, "\n"@);
        let notice = if truncated {
            "\n[... truncated at "@ + decimal(max_results) + " results]"@
        } else {
            seq![]
        };
        let last = match end {
            SearchEnd::TimedOut => timeout_suffix(),
            SearchEnd::Canceled => "\n[... canceled by user]"@,
            SearchEnd::Exited => seq![],
        };
        let report = grep_result(lines, truncated, end, stderr, max_results)->0;
        assert(report =~= body + notice + last);
        assert(report.subrange(0, body.len() as int) =~= body);
        assert(stands_at(report, body, 0));
        lemma_stands_between(body, notice, last);
        assert(report.subrange(report.len() - last.len(), report.len() as int) =~= last);
        if 0 <= i < lines.len() {
            lemma_joined_holds(lines, "\n"@, i);
            lemma_held_in_part(report, body, lines[i], 0);
        }
        if !truncated && end == SearchEnd::Exited {
            assert(report =~= body);
        }
    }
}

/// Sorting the lines of a symbol search drops none and adds none: lines that
/// define something come first, and each sort keeps its order.
pub proof fn sorting_keeps_the_lines(lines: Seq<Seq<char>>, a: int, b: int)
    ensures
        definitions_first(lines).len() == lines.len(),
        definitions_first(lines).to_multiset() == lines.to_multiset(),
        0 <= a < b < lines.len() && defines(definitions_first(lines)[b]) ==> defines(
            definitions_first(lines)[a],
        ),
{
    lemma_split_by_sort(lines);
    let first = lines_where(lines, true);
    let second = lines_where(lines, false);
    lemma_where(lines, true);
    lemma_where(lines, false);
    if 0 <= a < b < lines.len() && defines(definitions_first(lines)[b]) {
        if b >= first.len() {
            assert(definitions_first(lines)[b] == second[b - first.len()]);
        }
        assert(definitions_first(lines)[a] == first[a]);
    }
}

proof fn lemma_where(lines: Seq<Seq<char>>, defining: bool)
    ensures
        forall|k: int|
            0 <= k < lines_where(lines, defining).len() ==> defines(
                #[trigger] lines_where(lines, defining)[k],
            ) == defining,
    decreases lines.len(),
{
    reveal(Seq::filter);
    if lines.len() > 0 {
        lemma_where(lines.drop_last(), defining);
    }
}

proof fn lemma_split_by_sort(lines: Seq<Seq<char>>)
    ensures
        lines_where(lines, true).len() + lines_where(lines, false).len() == lines.len(),
        definitions_first(lines).to_multiset() == lines.to_multiset(),
    decreases lines.len(),
{
    broadcast use vstd::seq_lib::group_to_multiset_ensures;

    reveal(Seq::filter);
    let first = lines_where(lines, true);
    let second = lines_where(lines, false);
    vstd::seq_lib::lemma_multiset_commutative(first, second);
    if lines.len() == 0 {
        assert(definitions_first(lines) =~= lines);
    } else {
        let rest = lines.drop_last();
        let last = lines.last();
        lemma_split_by_sort(rest);
        let a = lines_where(rest, true);
        let b = lines_where(rest, false);
        vstd::seq_lib::lemma_multiset_commutative(a, b);
        assert(rest.push(last) =~= lines);
        assert(lines.to_multiset() =~= rest.to_multiset().insert(last));
        if defines(last) {
            assert(first == a.push(last));
            assert(first.to_multiset() =~= a.to_multiset().insert(last));
            assert(second == b);
        } else {
            assert(second == b.push(last));
            assert(second.to_multiset() =~= b.to_multiset().insert(last));
            assert(first == a);
        }
        assert(definitions_first(lines).to_multiset() =~= lines.to_multiset());
    }
}

/// A search for symbols asks for plain lines with their numbers, and for not more
/// than fifty of a file.
pub proof fn symbol_searches_ask_for_plain_lines(glob: Option<Seq<char>>, globs: Seq<Seq<char>>)
    ensures
        crate::code_search::symbol_options(glob, globs).contains("--line-number"@),
        crate::code_search::symbol_options(glob, globs).contains("--no-heading"@),
        crate::code_search::symbol_options(glob, globs).contains("--color=never"@),
        crate::code_search::symbol_options(glob, globs).contains("--max-count=50"@),
{
    let all = crate::code_search::symbol_options(glob, globs);
    assert(all[0] == "--line-number"@);
    assert(all[1] == "--no-heading"@);
    assert(all[2] == "--color=never"@);
    assert(all[3] == "--max-count=50"@);
}

} // verus!
