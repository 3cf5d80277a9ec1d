//! Code search: ripgrep invocations, the in-process fallback, and the reports
//! that both end in.
use crate::json::opt_str;
use crate::paths::{
    PathError, PathErrorView, PathFacts, below, canonical_or, checked, location_globs,
    reject_if_sensitive, resolve_checked_path, sensitive_search_globs, sensitivity, standard_globs,
};
use crate::text::{
    all_digits, chars_of, clone_opt, concat2, concat3, concat4, concat5, contains, decimal,
    decimal_of, encoded_len, is_digit, join, joined, lines, lines_of, lowered, occurs, opt_view,
    prefix_chars, same, string_of, take_chars, to_ascii_lowercase, trim, trimmed, utf8_len, views,
};
use vstd::prelude::*;
use vstd::string::*;

verus! {

/// Wall-clock ceiling for symbol_search / grep_search.
pub const SEARCH_TIMEOUT_SECS: u64 = 30;

/// The in-process fallback is only used when ripgrep is unavailable. Keep a
/// per-file cap so a single generated artifact cannot exhaust the GUI process.
pub const FALLBACK_MAX_FILE_BYTES: u64 = 8_388_608;

/// Output ceiling for the in-process fallback. Unlike the ripgrep path, the
/// buffer lives in the GUI process, so accumulation must be bounded even when
/// the caller passes huge `context_lines` / `max_results`.
pub const FALLBACK_MAX_OUTPUT_BYTES: usize = 524_288;

/// The lines that are scanned between two looks at the clock.
pub const SCAN_CHUNK_LINES: usize = 256;

// ---------------------------------------------------------------------------
// Patterns
// ---------------------------------------------------------------------------

pub open spec fn is_regex_meta(c: char) -> bool {
    c == '\\' || c == '.' || c == '+' || c == '*' || c == '?' || c == '(' || c == ')' || c == '|'
        || c == '[' || c == ']' || c == '{' || c == '}' || c == '^' || c == '$'
}

/// The text as a pattern that matches it literally.
pub open spec fn regex_escaped(s: Seq<char>) -> Seq<char>
    decreases s.len(),
{
    if s.len() == 0 {
        seq![]
    } else {
        let before = regex_escaped(s.drop_last());
        if is_regex_meta(s.last()) {
            before.push('\\').push(s.last())
        } else {
            before.push(s.last())
        }
    }
}

pub fn escape_regex(s: &str) -> (r: String)
    ensures
        r@ == regex_escaped(s@),
{
    let cs = chars_of(s);
    let mut out = String::new();
    let mut i: usize = 0;
    while i < cs.len()
        invariant
            i <= cs.len(),
            cs@ == s@,
            out@ == regex_escaped(s@.take(i as int)),
        decreases cs.len() - i,
    {
        let c = cs[i];
        assert(s@.take(i + 1).drop_last() =~= s@.take(i as int));
        assert(s@.take(i + 1).last() == c);
        if c == '\\' || c == '.' || c == '+' || c == '*' || c == '?' || c == '(' || c == ')' || c
            == '|' || c == '[' || c == ']' || c == '{' || c == '}' || c == '^' || c == '$' {
            out.push('\\');
        }
        out.push(c);
        i += 1;
    }
    assert(s@.take(i as int) =~= s@);
    out
}

/// What an escaped text stands for: each backslash gives way to what follows.
pub open spec fn unescaped(t: Seq<char>) -> Seq<char>
    decreases t.len(),
{
    if t.len() == 0 {
        seq![]
    } else if t.len() >= 2 && t[t.len() - 2] == '\\' && is_regex_meta(t.last()) {
        unescaped(t.take(t.len() - 2)).push(t.last())
    } else {
        unescaped(t.drop_last()).push(t.last())
    }
}

/// The patterns that find definitions of a symbol of that kind.
pub open spec fn definition_patterns(kind: Seq<char>, name: Seq<char>) -> Seq<Seq<char>> {
    if kind == "function"@ {
        seq![
            r"(fn|function|def|func)\s+"@ + name,
            r"(const|let|var)\s+"@ + name + r"\s*=\s*(async\s+)?\("@,
        ]
    } else if kind == "type"@ {
        seq![r"(type|struct|enum|interface|typedef)\s+"@ + name]
    } else if kind == "class"@ {
        seq![r"(class|struct)\s+"@ + name]
    } else if kind == "method"@ {
        seq![r"(fn|def|func|function)\s+"@ + name, r"\."@ + name + r"\s*=\s*function"@]
    } else {
        seq![
            r"(fn|function|def|func)\s+"@ + name,
            r"(const|let|var)\s+"@ + name + r"\s*=\s*(async\s+)?\("@,
            r"(type|struct|enum|interface|class|trait|typedef)\s+"@ + name,
            r"(pub\s+)?(mod|module)\s+"@ + name,
        ]
    }
}

/// The one pattern that finds definitions of the symbol `query`.
pub open spec fn symbol_pattern_of(query: Seq<char>, kind: Seq<char>) -> Seq<char> {
    joined(definition_patterns(kind, regex_escaped(query)), "|"@)
}

fn add_text(list: &mut Vec<String>, s: String)
    ensures
        views(final(list)@) == views(old(list)@).push(s@),
{
    list.push(s);
    assert(views(list@) =~= views(old(list)@).push(s@));
}

/// The one pattern that finds definitions of the symbol `query`.
pub fn symbol_pattern(query: &str, kind: &str) -> (r: String)
    ensures
        r@ == symbol_pattern_of(query@, kind@),
{
    let name = escape_regex(query);
    let n = name.as_str();
    let mut list: Vec<String> = Vec::new();
    assert(views(list@) =~= Seq::empty());
    if same(kind, "function") {
        add_text(&mut list, concat2(r"(fn|function|def|func)\s+", n));
        add_text(&mut list, concat3(r"(const|let|var)\s+", n, r"\s*=\s*(async\s+)?\("));
    } else if same(kind, "type") {
        add_text(&mut list, concat2(r"(type|struct|enum|interface|typedef)\s+", n));
    } else if same(kind, "class") {
        add_text(&mut list, concat2(r"(class|struct)\s+", n));
    } else if same(kind, "method") {
        add_text(&mut list, concat2(r"(fn|def|func|function)\s+", n));
        add_text(&mut list, concat3(r"\.", n, r"\s*=\s*function"));
    } else {
        add_text(&mut list, concat2(r"(fn|function|def|func)\s+", n));
        add_text(&mut list, concat3(r"(const|let|var)\s+", n, r"\s*=\s*(async\s+)?\("));
        add_text(
            &mut list,
            concat2(r"(type|struct|enum|interface|class|trait|typedef)\s+", n),
        );
        add_text(&mut list, concat2(r"(pub\s+)?(mod|module)\s+", n));
    }
    assert(views(list@) =~= definition_patterns(kind@, name@));
    join(&list, "|")
}

// ---------------------------------------------------------------------------
// Ripgrep arguments
// ---------------------------------------------------------------------------

/// The options that hand a glob filter to ripgrep.
pub open spec fn filter_args(glob: Option<Seq<char>>) -> Seq<Seq<char>> {
    match glob {
        Some(g) => seq!["--glob"@, g],
        None => seq![],
    }
}

/// The options that exclude each glob, whatever its case.
pub open spec fn exclusion_args(globs: Seq<Seq<char>>) -> Seq<Seq<char>>
    decreases globs.len(),
{
    if globs.len() == 0 {
        seq![]
    } else {
        exclusion_args(globs.drop_last()).push("--iglob"@).push(globs.last())
    }
}

/// The options of a grep search, before the barrier. A NUL byte ends the path
/// on each line, so that matching lines and lines of context can be told apart.
pub open spec fn grep_options(
    context_lines: nat,
    max_results: nat,
    case_insensitive: bool,
    glob: Option<Seq<char>>,
    globs: Seq<Seq<char>>,
) -> Seq<Seq<char>> {
    seq![
        "--line-number"@,
        "--no-heading"@,
        "--null"@,
        "--color=never"@,
        "--context="@ + decimal(context_lines),
        "--max-count="@ + decimal(max_results),
    ] + if case_insensitive {
        seq!["--ignore-case"@]
    } else {
        seq![]
    } + filter_args(glob) + exclusion_args(globs)
}

/// The options of a symbol search, before the barrier.
pub open spec fn symbol_options(glob: Option<Seq<char>>, globs: Seq<Seq<char>>) -> Seq<Seq<char>> {
    seq!["--line-number"@, "--no-heading"@, "--color=never"@, "--max-count=50"@] + filter_args(
        glob,
    ) + exclusion_args(globs)
}

/// What stands behind the options: the barrier that ends them, the pattern and
/// the path.
pub open spec fn behind_barrier(pattern: Seq<char>, path: Seq<char>) -> Seq<Seq<char>> {
    seq!["--"@, pattern, path]
}

fn add_arg(args: &mut Vec<String>, s: &str)
    ensures
        views(final(args)@) == views(old(args)@).push(s@),
{
    args.push(s.to_owned());
    assert(views(args@) =~= views(old(args)@).push(s@));
}

fn add_filters(args: &mut Vec<String>, glob_filter: Option<&str>, globs: &Vec<String>)
    ensures
        views(final(args)@) == views(old(args)@) + filter_args(opt_str(glob_filter))
            + exclusion_args(views(globs@)),
{
    let ghost start = views(args@);
    if let Some(glob) = glob_filter {
        add_arg(args, "--glob");
        add_arg(args, glob);
    }
    assert(views(args@) =~= start + filter_args(opt_str(glob_filter)));
    let ghost filtered = views(args@);
    let ghost all = views(globs@);
    let mut i: usize = 0;
    assert(filtered + exclusion_args(all.take(0)) =~= filtered);
    while i < globs.len()
        invariant
            i <= globs.len(),
            all == views(globs@),
            views(args@) == filtered + exclusion_args(all.take(i as int)),
        decreases globs.len() - i,
    {
        let ghost before = exclusion_args(all.take(i as int));
        proof {
            assert(all.take(i + 1).drop_last() =~= all.take(i as int));
            assert(all.take(i + 1).last() == globs@[i as int]@);
        }
        add_arg(args, "--iglob");
        add_arg(args, globs[i].as_str());
        assert(views(args@) =~= filtered + before.push("--iglob"@).push(globs@[i as int]@));
        i += 1;
    }
    assert(all.take(i as int) =~= all);
}

/// Build the ripgrep argument vector for grep_search. The `--` flag-parsing
/// barrier keeps the model-supplied pattern from being consumed as a ripgrep
/// option (`--pre=<cmd>` would run a program per file, and an injected
/// `--iglob` would override the sensitive-file exclusions because rg's
/// override matcher is last-match-wins).
pub fn grep_rg_args(
    pattern: &str,
    abs_path: &str,
    context_lines: usize,
    max_results: usize,
    case_insensitive: bool,
    glob_filter: Option<&str>,
    sensitive_globs: &Vec<String>,
) -> (r: Vec<String>)
    ensures
        views(r@) == grep_options(
            context_lines as nat,
            max_results as nat,
            case_insensitive,
            opt_str(glob_filter),
            views(sensitive_globs@),
        ) + behind_barrier(pattern@, abs_path@),
{
    let mut args: Vec<String> = Vec::new();
    assert(views(args@) =~= Seq::empty());
    add_arg(&mut args, "--line-number");
    add_arg(&mut args, "--no-heading");
    add_arg(&mut args, "--null");
    add_arg(&mut args, "--color=never");
    add_arg(&mut args, concat2("--context=", decimal_of(context_lines as u128).as_str()).as_str());
    add_arg(&mut args, concat2("--max-count=", decimal_of(max_results as u128).as_str()).as_str());
    if case_insensitive {
        add_arg(&mut args, "--ignore-case");
    }
    add_filters(&mut args, glob_filter, sensitive_globs);
    assert(views(args@) =~= grep_options(
        context_lines as nat,
        max_results as nat,
        case_insensitive,
        opt_str(glob_filter),
        views(sensitive_globs@),
    ));
    let ghost options = views(args@);
    add_arg(&mut args, "--");
    add_arg(&mut args, pattern);
    add_arg(&mut args, abs_path);
    assert(views(args@) =~= options + behind_barrier(pattern@, abs_path@));
    args
}

/// Build the ripgrep argument vector for symbol_search. Same `--` barrier as
/// [`grep_rg_args`]; the combined pattern is code-built today, but the
/// barrier keeps that assumption out of the safety argument.
pub fn symbol_rg_args(
    combined_pattern: &str,
    abs_path: &str,
    glob_filter: Option<&str>,
    sensitive_globs: &Vec<String>,
) -> (r: Vec<String>)
    ensures
        views(r@) == symbol_options(opt_str(glob_filter), views(sensitive_globs@))
            + behind_barrier(combined_pattern@, abs_path@),
{
    let mut args: Vec<String> = Vec::new();
    assert(views(args@) =~= Seq::empty());
    add_arg(&mut args, "--line-number");
    add_arg(&mut args, "--no-heading");
    add_arg(&mut args, "--color=never");
    add_arg(&mut args, "--max-count=50");
    add_filters(&mut args, glob_filter, sensitive_globs);
    assert(views(args@) =~= symbol_options(opt_str(glob_filter), views(sensitive_globs@)));
    let ghost options = views(args@);
    add_arg(&mut args, "--");
    add_arg(&mut args, combined_pattern);
    add_arg(&mut args, abs_path);
    assert(views(args@) =~= options + behind_barrier(combined_pattern@, abs_path@));
    args
}

/// Whatever the pattern, it is the last argument but one, the path is the last,
/// and the barrier stands right before them: neither is read as an option.
pub proof fn pattern_stands_behind_barrier(
    options: Seq<Seq<char>>,
    pattern: Seq<char>,
    path: Seq<char>,
)
    ensures
        ({
            let args = options + behind_barrier(pattern, path);
            let n = args.len() as int;
            &&& n >= 3
            &&& args[n - 3] == "--"@
            &&& args[n - 2] == pattern
            &&& args[n - 1] == path
        }),
{
}

/// The options before the barrier do not depend on the pattern or the path, and
/// every exclusion is among them, behind the filter, so that the filter cannot
/// override it.
pub proof fn exclusions_follow_the_filter(
    context_lines: nat,
    max_results: nat,
    case_insensitive: bool,
    glob: Option<Seq<char>>,
    globs: Seq<Seq<char>>,
    i: int,
)
    requires
        0 <= i < globs.len(),
    ensures
        ({
            let options = grep_options(context_lines, max_results, case_insensitive, glob, globs);
            let at = options.len() - 2 * (globs.len() - i);
            &&& at >= 0
            &&& options[at] == "--iglob"@
            &&& options[at + 1] == globs[i]
            &&& glob matches Some(g) ==> at >= 2 + filter_place(options, globs)
        }),
    decreases globs.len(),
{
    lemma_exclusions(globs, i);
    let options = grep_options(context_lines, max_results, case_insensitive, glob, globs);
    let head = options.len() - exclusion_args(globs).len();
    assert(options[head + 2 * i] == exclusion_args(globs)[2 * i]);
    assert(options[head + 2 * i + 1] == exclusion_args(globs)[2 * i + 1]);
}

/// Where the filter stands, if there is one.
pub open spec fn filter_place(options: Seq<Seq<char>>, globs: Seq<Seq<char>>) -> int {
    options.len() - 2 * globs.len() - 2
}

proof fn lemma_exclusions(globs: Seq<Seq<char>>, i: int)
    requires
        0 <= i < globs.len(),
    ensures
        exclusion_args(globs).len() == 2 * globs.len(),
        exclusion_args(globs)[2 * i] == "--iglob"@,
        exclusion_args(globs)[2 * i + 1] == globs[i],
    decreases globs.len(),
{
    let rest = globs.drop_last();
    lemma_exclusion_len(rest);
    if i < rest.len() {
        lemma_exclusions(rest, i);
    }
}

proof fn lemma_exclusion_len(globs: Seq<Seq<char>>)
    ensures
        exclusion_args(globs).len() == 2 * globs.len(),
    decreases globs.len(),
{
    if globs.len() > 0 {
        lemma_exclusion_len(globs.drop_last());
    }
}

// ---------------------------------------------------------------------------
// Plans
// ---------------------------------------------------------------------------

/// How a search is carried out.
#[derive(Debug)]
pub enum SearchPlan {
    /// By ripgrep, with these arguments.
    Ripgrep(Vec<String>),
    /// In this process, from `root` on.
    InProcess {
        pattern: String,
        root: String,
        glob: Option<String>,
        context_lines: usize,
        case_insensitive: bool,
        max_results: usize,
    },
}

pub enum SearchPlanView {
    Ripgrep(Seq<Seq<char>>),
    InProcess {
        pattern: Seq<char>,
        root: Seq<char>,
        glob: Option<Seq<char>>,
        context_lines: nat,
        case_insensitive: bool,
        max_results: nat,
    },
}

impl View for SearchPlan {
    type V = SearchPlanView;

    open spec fn view(&self) -> SearchPlanView {
        match *self {
            SearchPlan::Ripgrep(args) => SearchPlanView::Ripgrep(views(args@)),
            SearchPlan::InProcess {
                pattern,
                root,
                glob,
                context_lines,
                case_insensitive,
                max_results,
            } => SearchPlanView::InProcess {
                pattern: pattern@,
                root: root@,
                glob: opt_view(glob),
                context_lines: context_lines as nat,
                case_insensitive,
                max_results: max_results as nat,
            },
        }
    }
}

pub open spec fn plan_outcome(r: Result<SearchPlan, PathError>) -> Result<
    SearchPlanView,
    PathErrorView,
> {
    match r {
        Ok(plan) => Ok(plan@),
        Err(e) => Err(e@),
    }
}

/// The canonical form of the root of a search, or the root itself where it has
/// none. The blocked locations are canonical, so they are looked for below it.
pub open spec fn true_root(root: Seq<char>, facts: PathFacts) -> Seq<char> {
    canonical_or(root, opt_view(facts.escape.target))
}

fn canonical_root(root: &str, facts: &PathFacts) -> (r: String)
    ensures
        r@ == true_root(root@, *facts),
{
    match &facts.escape.target {
        Some(target) => target.clone(),
        None => root.to_owned(),
    }
}

/// The globs that keep secrets below a root out of a search.
pub open spec fn secret_globs(root: Seq<char>, facts: PathFacts) -> Seq<Seq<char>> {
    standard_globs() + location_globs(true_root(root, facts), views(facts.blocked@))
}

/// How a search for a pattern is carried out; a path that must not be read is
/// refused.
pub open spec fn grep_plan(
    request: GrepRequest,
    cwd: Seq<char>,
    facts: PathFacts,
    has_ripgrep: bool,
) -> Result<SearchPlanView, PathErrorView> {
    match checked(request.path@, cwd, facts) {
        Err(e) => Err(e),
        Ok(root) => Ok(
            if has_ripgrep {
                SearchPlanView::Ripgrep(
                    grep_options(
                        request.context_lines as nat,
                        request.max_results as nat,
                        request.case_insensitive,
                        opt_view(request.glob),
                        secret_globs(root, facts),
                    ) + behind_barrier(request.pattern@, root),
                )
            } else {
                SearchPlanView::InProcess {
                    pattern: request.pattern@,
                    root,
                    glob: opt_view(request.glob),
                    context_lines: request.context_lines as nat,
                    case_insensitive: request.case_insensitive,
                    max_results: request.max_results as nat,
                }
            },
        ),
    }
}

/// How a search for a symbol is carried out.
pub open spec fn symbol_plan(
    request: SymbolRequest,
    cwd: Seq<char>,
    facts: PathFacts,
    has_ripgrep: bool,
) -> Result<SearchPlanView, PathErrorView> {
    let pattern = symbol_pattern_of(request.query@, request.kind@);
    match checked(request.path@, cwd, facts) {
        Err(e) => Err(e),
        Ok(root) => Ok(
            if has_ripgrep {
                SearchPlanView::Ripgrep(
                    symbol_options(opt_view(request.glob), secret_globs(root, facts))
                        + behind_barrier(pattern, root),
                )
            } else {
                SearchPlanView::InProcess {
                    pattern,
                    root,
                    glob: opt_view(request.glob),
                    context_lines: 0,
                    case_insensitive: false,
                    max_results: SYMBOL_MAX_RESULTS as nat,
                }
            },
        ),
    }
}

/// A search for a pattern.
#[derive(Debug)]
pub struct GrepRequest {
    pub pattern: String,
    pub path: String,
    pub glob: Option<String>,
    pub context_lines: usize,
    pub case_insensitive: bool,
    pub max_results: usize,
}

/// A search for the definition of a symbol.
#[derive(Debug)]
pub struct SymbolRequest {
    pub query: String,
    pub path: String,
    pub kind: String,
    pub glob: Option<String>,
}

fn glob_str(o: &Option<String>) -> (r: Option<&str>)
    ensures
        opt_str(r) == opt_view(*o),
{
    match o {
        Some(s) => Some(s.as_str()),
        None => None,
    }
}

/// Plans a search for a pattern: where it starts, and what it leaves out.
pub fn plan_grep_search(
    request: &GrepRequest,
    cwd: &str,
    facts: &PathFacts,
    has_ripgrep: bool,
) -> (r: Result<SearchPlan, PathError>)
    ensures
        plan_outcome(r) == grep_plan(*request, cwd@, *facts, has_ripgrep),
{
    let root = match resolve_checked_path(request.path.as_str(), cwd, facts) {
        Ok(root) => root,
        Err(e) => return Err(e),
    };
    if has_ripgrep {
        let canonical = canonical_root(root.as_str(), facts);
        let globs = sensitive_search_globs(canonical.as_str(), &facts.blocked);
        Ok(
            SearchPlan::Ripgrep(
                grep_rg_args(
                    request.pattern.as_str(),
                    root.as_str(),
                    request.context_lines,
                    request.max_results,
                    request.case_insensitive,
                    glob_str(&request.glob),
                    &globs,
                ),
            ),
        )
    } else {
        Ok(
            SearchPlan::InProcess {
                pattern: request.pattern.clone(),
                root,
                glob: clone_opt(&request.glob),
                context_lines: request.context_lines,
                case_insensitive: request.case_insensitive,
                max_results: request.max_results,
            },
        )
    }
}

/// Plans a search for the definition of a symbol.
pub fn plan_symbol_search(
    request: &SymbolRequest,
    cwd: &str,
    facts: &PathFacts,
    has_ripgrep: bool,
) -> (r: Result<SearchPlan, PathError>)
    ensures
        plan_outcome(r) == symbol_plan(*request, cwd@, *facts, has_ripgrep),
{
    let root = match resolve_checked_path(request.path.as_str(), cwd, facts) {
        Ok(root) => root,
        Err(e) => return Err(e),
    };
    let pattern = symbol_pattern(request.query.as_str(), request.kind.as_str());
    if has_ripgrep {
        let canonical = canonical_root(root.as_str(), facts);
        let globs = sensitive_search_globs(canonical.as_str(), &facts.blocked);
        Ok(
            SearchPlan::Ripgrep(
                symbol_rg_args(pattern.as_str(), root.as_str(), glob_str(&request.glob), &globs),
            ),
        )
    } else {
        Ok(
            SearchPlan::InProcess {
                pattern,
                root,
                glob: clone_opt(&request.glob),
                context_lines: 0,
                case_insensitive: false,
                max_results: SYMBOL_MAX_RESULTS,
            },
        )
    }
}

/// Whether arguments exclude a glob before the barrier.
pub open spec fn excludes(args: Seq<Seq<char>>, glob: Seq<char>) -> bool {
    exists|k: int|
        0 <= k && k + 1 < args.len() - 3 && #[trigger] args[k] == "--iglob"@ && args[k + 1] == glob
}

proof fn lemma_location_globs(root: Seq<char>, blocked: Seq<Seq<char>>, i: int)
    requires
        0 <= i < blocked.len(),
        below(blocked[i], root) is Some,
    ensures
        location_globs(root, blocked).contains("!"@ + below(blocked[i], root)->0),
        location_globs(root, blocked).contains("!"@ + below(blocked[i], root)->0 + "/**"@),
    decreases blocked.len(),
{
    let one = "!"@ + below(blocked[i], root)->0;
    let all = one + "/**"@;
    let rest = blocked.drop_last();
    let before = location_globs(root, rest);
    let globs = location_globs(root, blocked);
    if i < rest.len() {
        assert(rest[i] == blocked[i]);
        lemma_location_globs(root, rest, i);
        let a = choose|a: int| 0 <= a < before.len() && before[a] == one;
        let b = choose|b: int| 0 <= b < before.len() && before[b] == all;
        assert(globs[a] == one);
        assert(globs[b] == all);
    } else {
        assert(globs[before.len() as int] == one);
        assert(globs[before.len() as int + 1] == all);
    }
}

proof fn lemma_excludes(
    head: Seq<Seq<char>>,
    globs: Seq<Seq<char>>,
    pattern: Seq<char>,
    path: Seq<char>,
    glob: Seq<char>,
)
    requires
        globs.contains(glob),
    ensures
        excludes(head + exclusion_args(globs) + behind_barrier(pattern, path), glob),
{
    let i = choose|i: int| 0 <= i < globs.len() && globs[i] == glob;
    lemma_exclusions(globs, i);
    let args = head + exclusion_args(globs) + behind_barrier(pattern, path);
    let at = head.len() + 2 * i;
    assert(args[at] == exclusion_args(globs)[2 * i]);
    assert(args[at + 1] == exclusion_args(globs)[2 * i + 1]);
}

proof fn lemma_secret_globs(root: Seq<char>, facts: PathFacts, i: int)
    requires
        0 <= i < facts.blocked@.len(),
        below(facts.blocked@[i]@, true_root(root, facts)) is Some,
    ensures
        ({
            let rel = below(facts.blocked@[i]@, true_root(root, facts))->0;
            &&& secret_globs(root, facts).contains("!"@ + rel)
            &&& secret_globs(root, facts).contains("!"@ + rel + "/**"@)
        }),
{
    let blocked = views(facts.blocked@);
    let from = true_root(root, facts);
    let rel = below(blocked[i], from)->0;
    let globs = location_globs(from, blocked);
    lemma_location_globs(from, blocked, i);
    let a = choose|a: int| 0 <= a < globs.len() && globs[a] == "!"@ + rel;
    let b = choose|b: int| 0 <= b < globs.len() && globs[b] == "!"@ + rel + "/**"@;
    let n = standard_globs().len() as int;
    assert(secret_globs(root, facts)[n + a] == "!"@ + rel);
    assert(secret_globs(root, facts)[n + b] == "!"@ + rel + "/**"@);
}

/// Whether a plan keeps ripgrep out of a blocked location and of everything in
/// it.
pub open spec fn keeps_out(plan: SearchPlanView, rel: Seq<char>) -> bool {
    plan matches SearchPlanView::Ripgrep(args) && excludes(args, "!"@ + rel) && excludes(
        args,
        "!"@ + rel + "/**"@,
    )
}

/// Every blocked location strictly below the root of a search is kept out of
/// it, with all that it holds, however the path of the search leads to that
/// root: through a link, through `..`, or straight.
pub proof fn blocked_locations_are_kept_out(
    grep: GrepRequest,
    symbol: SymbolRequest,
    cwd: Seq<char>,
    facts: PathFacts,
    i: int,
)
    requires
        0 <= i < facts.blocked@.len(),
    ensures
        checked(grep.path@, cwd, facts) matches Ok(root) ==> (below(
            facts.blocked@[i]@,
            true_root(root, facts),
        ) matches Some(rel) ==> keeps_out(grep_plan(grep, cwd, facts, true)->Ok_0, rel)),
        checked(symbol.path@, cwd, facts) matches Ok(root) ==> (below(
            facts.blocked@[i]@,
            true_root(root, facts),
        ) matches Some(rel) ==> keeps_out(symbol_plan(symbol, cwd, facts, true)->Ok_0, rel)),
{
    if let Ok(root) = checked(grep.path@, cwd, facts) {
        if let Some(rel) = below(facts.blocked@[i]@, true_root(root, facts)) {
            let globs = secret_globs(root, facts);
            let options = grep_options(
                grep.context_lines as nat,
                grep.max_results as nat,
                grep.case_insensitive,
                opt_view(grep.glob),
                globs,
            );
            let head = options.take(options.len() - exclusion_args(globs).len());
            assert(head + exclusion_args(globs) =~= options);
            lemma_secret_globs(root, facts, i);
            lemma_excludes(head, globs, grep.pattern@, root, "!"@ + rel);
            lemma_excludes(head, globs, grep.pattern@, root, "!"@ + rel + "/**"@);
        }
    }
    if let Ok(root) = checked(symbol.path@, cwd, facts) {
        if let Some(rel) = below(facts.blocked@[i]@, true_root(root, facts)) {
            let globs = secret_globs(root, facts);
            let pattern = symbol_pattern_of(symbol.query@, symbol.kind@);
            let options = symbol_options(opt_view(symbol.glob), globs);
            let head = options.take(options.len() - exclusion_args(globs).len());
            assert(head + exclusion_args(globs) =~= options);
            lemma_secret_globs(root, facts, i);
            lemma_excludes(head, globs, pattern, root, "!"@ + rel);
            lemma_excludes(head, globs, pattern, root, "!"@ + rel + "/**"@);
        }
    }
}

// ---------------------------------------------------------------------------
// Matching
// ---------------------------------------------------------------------------

/// A compiled regular expression of the `regex` crate.
#[verifier::external_type_specification]
#[verifier::external_body]
pub struct ExRegex(regex::Regex);

/// The pattern that an expression was compiled from, and whether it ignores
/// case.
pub uninterp spec fn regex_source(re: regex::Regex) -> (Seq<char>, bool);

/// Whether an expression with that pattern matches somewhere in a line:
/// `Regex::is_match`.
pub uninterp spec fn regex_matches(source: (Seq<char>, bool), line: Seq<char>) -> bool;

/// Whether a pattern, read with that case setting, has no syntax error:
/// `RegexBuilder::build` does not answer with `Error::Syntax`.
pub uninterp spec fn regex_well_formed(pattern: Seq<char>, case_insensitive: bool) -> bool;

/// Why a pattern is refused.
#[derive(Clone, Copy, Debug, PartialEq, Eq, Structural)]
pub enum PatternRefusal {
    /// It is no regular expression.
    Malformed,
    /// It is one, but what it compiles to is too large.
    TooLarge,
}

/// Compiles a pattern with `RegexBuilder`. What comes back was compiled from
/// that pattern with that case setting. A syntax error comes if and only if the
/// pattern is not well formed, which is a function of the pattern and the case
/// setting. When a well-formed pattern is too large is not stated: the limit is
/// on the size of the machine's representation.
#[verifier::external_body]
fn build_regex(pattern: &str, case_insensitive: bool) -> (r: Result<regex::Regex, PatternRefusal>)
    ensures
        r matches Ok(re) ==> regex_source(re) == (pattern@, case_insensitive),
        r matches Err(PatternRefusal::Malformed) <==> !regex_well_formed(
            pattern@,
            case_insensitive,
        ),
{
    match regex::RegexBuilder::new(pattern).case_insensitive(case_insensitive).build() {
        Ok(re) => Ok(re),
        Err(regex::Error::Syntax(_)) => Err(PatternRefusal::Malformed),
        Err(_) => Err(PatternRefusal::TooLarge),
    }
}

/// Matches one line with `Regex::is_match`: a function of the pattern, the case
/// setting and the line. The language of patterns is not restated.
#[verifier::external_body]
fn regex_is_match(re: &regex::Regex, line: &str) -> (r: bool)
    ensures
        r == regex_matches(regex_source(*re), line@),
{
    re.is_match(line)
}

/// A pattern that could not be searched for, and the tool it was given to.
#[derive(Debug)]
pub struct PatternError {
    pub refusal: PatternRefusal,
    pub provider_label: String,
}

impl PatternError {
    /// What the error says.
    pub fn message(&self) -> (r: String)
        ensures
            r@ == "invalid "@ + self.provider_label@ + " regular expression"@,
    {
        concat3("invalid ", self.provider_label.as_str(), " regular expression")
    }
}

/// A search that is set up.
pub struct LineMatcher {
    regex: regex::Regex,
}

impl LineMatcher {
    /// The pattern and the case setting of the search.
    pub closed spec fn source(self) -> (Seq<char>, bool) {
        regex_source(self.regex)
    }

    /// Compiles the pattern of a search; an error where it is no regular
    /// expression, or too large a one.
    pub fn compile(pattern: &str, case_insensitive: bool, provider_label: &str) -> (r: Result<
        LineMatcher,
        PatternError,
    >)
        ensures
            r matches Ok(m) ==> m.source() == (pattern@, case_insensitive),
            r matches Err(e) ==> e.provider_label@ == provider_label@,
            (r matches Err(e) && e.refusal == PatternRefusal::Malformed) <==> !regex_well_formed(
                pattern@,
                case_insensitive,
            ),
    {
        match build_regex(pattern, case_insensitive) {
            Ok(regex) => Ok(LineMatcher { regex }),
            Err(refusal) => Err(
                PatternError { refusal, provider_label: provider_label.to_owned() },
            ),
        }
    }

    /// Whether the line matches.
    pub fn matches(&self, line: &str) -> (r: bool)
        ensures
            r == regex_matches(self.source(), line@),
    {
        regex_is_match(&self.regex, line)
    }
}

// ---------------------------------------------------------------------------
// The fallback search
// ---------------------------------------------------------------------------

/// Whether the fallback leaves an entry of the tree out: credential-named
/// entries, because search results cannot be approval-gated per file, and
/// everything that the path guard refuses.
pub open spec fn skipped_entry(
    name: Option<Seq<char>>,
    path: Seq<char>,
    canonical: Option<Seq<char>>,
    blocked: Seq<Seq<char>>,
) -> bool {
    (name matches Some(n) && occurs(lowered(n), "credentials"@)) || sensitivity(
        path,
        canonical,
        blocked,
    ) is Err
}

pub fn skips_entry(
    name: Option<&str>,
    path: &str,
    canonical: Option<&str>,
    blocked: &Vec<String>,
) -> (r: bool)
    ensures
        r == skipped_entry(opt_str(name), path@, opt_str(canonical), views(blocked@)),
{
    let credential_named = match name {
        Some(n) => contains(to_ascii_lowercase(n).as_str(), "credentials"),
        None => false,
    };
    if credential_named {
        return true;
    }
    match reject_if_sensitive(path, canonical, blocked) {
        Ok(()) => false,
        Err(_) => true,
    }
}

/// Whether a file is small enough to be searched.
pub fn admits_size(size: u64) -> (r: bool)
    ensures
        r == (size <= FALLBACK_MAX_FILE_BYTES),
{
    size <= FALLBACK_MAX_FILE_BYTES
}

/// Whether a file is searched: it is not too large, and holds no NUL byte.
pub fn admits_file(size: u64, bytes: &Vec<u8>) -> (r: bool)
    ensures
        r == (size <= FALLBACK_MAX_FILE_BYTES && !bytes@.contains(0u8)),
{
    if !admits_size(size) {
        return false;
    }
    let mut i: usize = 0;
    while i < bytes.len()
        invariant
            i <= bytes.len(),
            forall|k: int| 0 <= k < i ==> bytes@[k] != 0,
        decreases bytes.len() - i,
    {
        if bytes[i] == 0 {
            return false;
        }
        i += 1;
    }
    true
}

#[derive(Clone, Copy, Debug, PartialEq, Eq, Structural)]
pub enum FallbackTruncation {
    ResultLimit,
    OutputBytes,
}

/// The matching lines among the first `n` of a file, up to the result limit:
/// their indices, and whether a further match hit the limit.
pub open spec fn scanned(
    source: (Seq<char>, bool),
    lines: Seq<Seq<char>>,
    n: nat,
    room: int,
) -> (Seq<int>, bool)
    decreases n,
{
    if n == 0 || n > lines.len() {
        (seq![], false)
    } else {
        let before = scanned(source, lines, (n - 1) as nat, room);
        if before.1 || !regex_matches(source, lines[n - 1]) {
            before
        } else if before.0.len() >= room {
            (before.0, true)
        } else {
            (before.0.push(n - 1), false)
        }
    }
}

/// The scan of one file: what matched so far, and how many lines were seen.
#[derive(Debug)]
pub struct FileScan {
    pub matches: Vec<usize>,
    pub limit_reached: bool,
    pub next: usize,
}

pub open spec fn index_list(v: Seq<usize>) -> Seq<int> {
    v.map_values(|i: usize| i as int)
}

impl FileScan {
    /// Whether the scan stands where `n` lines are seen, with `room` matches
    /// left at the start of the file.
    pub open spec fn stands_at(
        self,
        source: (Seq<char>, bool),
        lines: Seq<Seq<char>>,
        room: int,
    ) -> bool {
        &&& self.next <= lines.len()
        &&& (index_list(self.matches@), self.limit_reached) == scanned(
            source,
            lines,
            self.next as nat,
            room,
        )
    }

    pub fn start() -> (r: FileScan)
        ensures
            forall|source: (Seq<char>, bool), lines: Seq<Seq<char>>, room: int|
                #[trigger] r.stands_at(source, lines, room),
            r.next == 0,
            !r.limit_reached,
    {
        let r = FileScan { matches: Vec::new(), limit_reached: false, next: 0 };
        assert(index_list(r.matches@) =~= seq![]);
        r
    }

    /// Whether lines are left to scan.
    pub fn is_done(&self, lines: &Vec<String>) -> (r: bool)
        ensures
            r == (self.limit_reached || self.next >= lines.len()),
    {
        self.limit_reached || self.next >= lines.len()
    }

    /// Scans the next chunk of lines. `already` matches were taken from earlier
    /// files.
    pub fn advance(
        self,
        matcher: &LineMatcher,
        lines: &Vec<String>,
        already: usize,
        max_results: usize,
    ) -> (r: FileScan)
        requires
            self.stands_at(matcher.source(), views(lines@), max_results - already),
            !self.limit_reached,
        ensures
            r.stands_at(matcher.source(), views(lines@), max_results - already),
            r.limit_reached || r.next == lines.len() || r.next == self.next + SCAN_CHUNK_LINES,
            r.limit_reached || r.next > self.next || r.next == lines.len(),
            r.next >= self.next,
    {
        let ghost all = views(lines@);
        let ghost source = matcher.source();
        let ghost room = max_results - already;
        let mut scan = self;
        let start: usize = scan.next;
        let end: usize = if lines.len() - start < SCAN_CHUNK_LINES {
            lines.len()
        } else {
            start + SCAN_CHUNK_LINES
        };
        while scan.next < end
            invariant
                start <= scan.next <= end <= lines.len(),
                start == self.next,
                all == views(lines@),
                source == matcher.source(),
                room == max_results - already,
                scan.stands_at(source, all, room),
                !scan.limit_reached,
            decreases end - scan.next,
        {
            let i: usize = scan.next;
            let ghost before = index_list(scan.matches@);
            assert(all[i as int] == lines@[i as int]@);
            if matcher.matches(lines[i].as_str()) {
                if already >= max_results || scan.matches.len() >= max_results - already {
                    scan.limit_reached = true;
                    scan.next = i + 1;
                    assert(scan.stands_at(source, all, room));
                    return scan;
                }
                scan.matches.push(i);
                assert(index_list(scan.matches@) =~= before.push(i as int));
            }
            scan.next = i + 1;
        }
        scan
    }
}

/// Whether line `i` is shown: it is within `context` lines of a match.
pub open spec fn shown_line(matches: Seq<int>, context: nat, i: int) -> bool {
    exists|k: int|
        0 <= k < matches.len() && #[trigger] matches[k] - context <= i <= matches[k] + context
}

/// Whether some line before `i` is shown.
pub open spec fn shown_before(matches: Seq<int>, context: nat, i: int) -> bool {
    exists|j: int| 0 <= j < i && #[trigger] shown_line(matches, context, j)
}

/// Whether a separator comes before line `i`: it starts a further region.
pub open spec fn opens_region(matches: Seq<int>, context: nat, i: int) -> bool {
    shown_line(matches, context, i) && !shown_line(matches, context, i - 1) && shown_before(
        matches,
        context,
        i,
    )
}

/// How a line is printed: colons mark a match, dashes its context.
pub open spec fn rendered_line(
    path: Seq<char>,
    line: Seq<char>,
    i: int,
    is_match: bool,
) -> Seq<char> {
    let marker = if is_match {
        ":"@
    } else {
        "-"@
    };
    path + marker + decimal((i + 1) as nat) + marker + line
}

/// What was printed so far, how many bytes that is with its line feeds, and
/// whether the budget stopped it.
pub struct Printed {
    pub lines: Seq<Seq<char>>,
    pub bytes: nat,
    pub stopped: bool,
}

/// The output after the first `n` lines of a file.
pub open spec fn printed(
    start: Printed,
    path: Seq<char>,
    lines: Seq<Seq<char>>,
    matches: Seq<int>,
    context: nat,
    n: nat,
) -> Printed
    decreases n,
{
    if n == 0 || n > lines.len() {
        start
    } else {
        let before = printed(start, path, lines, matches, context, (n - 1) as nat);
        let i = n - 1;
        if before.stopped || !shown_line(matches, context, i) {
            before
        } else {
            let text = rendered_line(path, lines[i], i, matches.contains(i));
            let separated = opens_region(matches, context, i);
            let cost = utf8_len(text) + 1 + if separated {
                3nat
            } else {
                0
            };
            if before.bytes + cost > FALLBACK_MAX_OUTPUT_BYTES {
                Printed { stopped: true, ..before }
            } else {
                Printed {
                    lines: if separated {
                        before.lines.push("--"@).push(text)
                    } else {
                        before.lines.push(text)
                    },
                    bytes: before.bytes + cost,
                    stopped: false,
                }
            }
        }
    }
}

/// The bytes of a list of lines, each with its line feed.
pub open spec fn output_size(lines: Seq<Seq<char>>) -> nat
    decreases lines.len(),
{
    if lines.len() == 0 {
        0
    } else {
        output_size(lines.drop_last()) + utf8_len(lines.last()) + 1
    }
}

/// What the fallback search collected.
#[derive(Debug)]
pub struct FallbackSearchOutput {
    pub lines: Vec<String>,
    pub truncation: Option<FallbackTruncation>,
    pub timed_out: bool,
    /// The bytes of the lines, with their line feeds.
    pub bytes: usize,
    /// The matches that were taken.
    pub match_count: usize,
}

impl FallbackSearchOutput {
    /// The byte count is that of the lines, and within the budget.
    pub open spec fn wf(self) -> bool {
        &&& self.bytes == output_size(views(self.lines@))
        &&& self.bytes <= FALLBACK_MAX_OUTPUT_BYTES
    }

    pub open spec fn found(self) -> Found {
        Found {
            lines: views(self.lines@),
            bytes: self.bytes as nat,
            count: self.match_count as nat,
            truncation: self.truncation,
        }
    }

    pub open spec fn printed(self) -> Printed {
        Printed { lines: views(self.lines@), bytes: self.bytes as nat, stopped: false }
    }

    pub fn new() -> (r: FallbackSearchOutput)
        ensures
            r.wf(),
            r.lines.len() == 0,
            r.truncation is None,
            !r.timed_out,
            r.match_count == 0,
    {
        FallbackSearchOutput {
            lines: Vec::new(),
            truncation: None,
            timed_out: false,
            bytes: 0,
            match_count: 0,
        }
    }
}

proof fn lemma_dash_len()
    ensures
        utf8_len("--"@) == 2,
{
    reveal_strlit("--");
    let d = "--"@;
    assert(d.len() == 2);
    assert(d.drop_last().drop_last() =~= Seq::empty());
    assert(utf8_len(d.drop_last().drop_last()) == 0);
    assert(utf8_len(d.drop_last()) == 1);
}

/// Adds one line, with a separator before it where a further region starts. The
/// result says whether the byte budget stopped it.
fn append_line(
    output: FallbackSearchOutput,
    path: &str,
    line: &str,
    i: usize,
    is_match: bool,
    separated: bool,
) -> (r: (FallbackSearchOutput, bool))
    requires
        output.wf(),
    ensures
        r.0.wf(),
        ({
            let text = rendered_line(path@, line@, i as int, is_match);
            let cost = utf8_len(text) + 1 + if separated {
                3nat
            } else {
                0
            };
            let stopped = output.bytes + cost > FALLBACK_MAX_OUTPUT_BYTES;
            &&& r.1 == stopped
            &&& stopped ==> r.0 == (FallbackSearchOutput {
                truncation: Some(FallbackTruncation::OutputBytes),
                ..output
            })
            &&& !stopped ==> {
                &&& views(r.0.lines@) == (if separated {
                    views(output.lines@).push("--"@).push(text)
                } else {
                    views(output.lines@).push(text)
                })
                &&& r.0.bytes == output.bytes + cost
                &&& r.0.truncation == output.truncation
                &&& r.0.timed_out == output.timed_out
                &&& r.0.match_count == output.match_count
            }
        }),
{
    let marker = if is_match {
        ":"
    } else {
        "-"
    };
    let numeral = decimal_of(i as u128 + 1);
    let text = concat5(path, marker, numeral.as_str(), marker, line);
    assert(text@ == rendered_line(path@, line@, i as int, is_match));
    let size = encoded_len(text.as_str());
    let separator: usize = if separated {
        3
    } else {
        0
    };
    let mut out = output;
    if size > FALLBACK_MAX_OUTPUT_BYTES || out.bytes + separator + size + 1
        > FALLBACK_MAX_OUTPUT_BYTES {
        out.truncation = Some(FallbackTruncation::OutputBytes);
        return (out, true);
    }
    let ghost before = views(out.lines@);
    if separated {
        out.lines.push("--".to_owned());
        assert(views(out.lines@) =~= before.push("--"@));
    }
    let ghost mid = views(out.lines@);
    out.bytes = out.bytes + separator + size + 1;
    out.lines.push(text);
    proof {
        lemma_dash_len();
        assert(views(out.lines@) =~= mid.push(text@));
        assert(mid.push(text@).drop_last() =~= mid);
        assert(before.push("--"@).drop_last() =~= before);
        assert(output_size(mid) == output_size(before) + separator);
        assert(output_size(mid.push(text@)) == output_size(mid) + utf8_len(text@) + 1);
    }
    (out, false)
}

/// What the search for the next match says of a line: `at` is the first match
/// whose context does not end before it.
proof fn lemma_line_flags(
    matches: Seq<usize>,
    at: int,
    i: int,
    ctx: nat,
    shown: bool,
    is_match: bool,
)
    requires
        0 <= at <= matches.len(),
        0 <= i,
        forall|a: int, b: int|
            0 <= a < b < matches.len() ==> #[trigger] matches[a] < #[trigger] matches[b],
        forall|k: int| 0 <= k < at ==> #[trigger] index_list(matches)[k] + ctx < i,
        at < matches.len() ==> matches[at] + ctx >= i,
        shown == (at < matches.len() && (matches[at] <= i || matches[at] - i <= ctx)),
        is_match == (at < matches.len() && exists|k: int|
            at <= k < matches.len() && #[trigger] matches[k] == i),
    ensures
        shown == shown_line(index_list(matches), ctx, i),
        is_match == index_list(matches).contains(i),
{
    let hits = index_list(matches);
    assert(at < matches.len() ==> hits[at] == matches[at]);
    if shown {
        assert(hits[at] - ctx <= i <= hits[at] + ctx);
    } else {
        assert forall|k: int| 0 <= k < hits.len() implies !(#[trigger] hits[k] - ctx <= i <= hits[k]
            + ctx) by {
            assert(hits[k] == matches[k]);
            if k >= at {
                assert(matches[k] >= matches[at]);
            }
        }
    }
    if hits.contains(i) {
        let k = choose|k: int| 0 <= k < hits.len() && hits[k] == i;
        assert(k >= at);
        assert(matches[k] == i);
    }
    if is_match {
        let k = choose|k: int| at <= k < matches.len() && matches[k] == i;
        assert(hits[k] == i);
    }
}

/// Adds the matches of one file, with their context, as far as the byte budget
/// goes. The result says whether the budget stopped it.
pub fn print_matches(
    output: FallbackSearchOutput,
    path: &str,
    lines: &Vec<String>,
    matches: &Vec<usize>,
    context_lines: usize,
) -> (r: (FallbackSearchOutput, bool))
    requires
        output.wf(),
        forall|a: int, b: int|
            0 <= a < b < matches.len() ==> #[trigger] matches@[a] < #[trigger] matches@[b],
        forall|a: int| 0 <= a < matches.len() ==> #[trigger] matches@[a] < lines.len(),
    ensures
        r.0.wf(),
        ({
            let after = printed(
                output.printed(),
                path@,
                views(lines@),
                index_list(matches@),
                context_lines as nat,
                lines@.len(),
            );
            &&& views(r.0.lines@) == after.lines
            &&& r.0.bytes == after.bytes
            &&& r.1 == after.stopped
        }),
        r.0.truncation == (if r.1 {
            Some(FallbackTruncation::OutputBytes)
        } else {
            output.truncation
        }),
        r.0.timed_out == output.timed_out,
        r.0.match_count == output.match_count,
{
    let ghost all = views(lines@);
    let ghost hits = index_list(matches@);
    let ghost start = output.printed();
    let ghost ctx = context_lines as nat;
    let mut out = output;
    let mut at: usize = 0;
    let mut any = false;
    let mut prev = false;
    let mut i: usize = 0;
    while i < lines.len()
        invariant
            i <= lines.len(),
            at <= matches.len(),
            all == views(lines@),
            hits == index_list(matches@),
            ctx == context_lines,
            start == output.printed(),
            forall|a: int, b: int|
                0 <= a < b < matches.len() ==> #[trigger] matches@[a] < #[trigger] matches@[b],
            forall|a: int| 0 <= a < matches.len() ==> #[trigger] matches@[a] < lines.len(),
            forall|k: int| 0 <= k < at ==> #[trigger] hits[k] + ctx < i,
            any == shown_before(hits, ctx, i as int),
            prev == (i > 0 && shown_line(hits, ctx, i - 1)),
            out.wf(),
            printed(start, path@, all, hits, ctx, i as nat) == out.printed(),
            out.truncation == output.truncation,
            out.timed_out == output.timed_out,
            out.match_count == output.match_count,
        decreases lines.len() - i,
    {
        while at < matches.len() && i > context_lines && matches[at] < i - context_lines
            invariant
                i < lines.len(),
                at <= matches.len(),
                hits == index_list(matches@),
                ctx == context_lines,
                forall|k: int| 0 <= k < at ==> #[trigger] hits[k] + ctx < i,
            decreases matches.len() - at,
        {
            assert(hits[at as int] == matches@[at as int]);
            at += 1;
        }
        let shown = at < matches.len() && (matches[at] <= i || matches[at] - i <= context_lines);
        let is_match = at < matches.len() && has_match(matches, at, i);
        proof {
            lemma_line_flags(matches@, at as int, i as int, ctx, shown, is_match);
        }
        if shown {
            let separated = any && !prev;
            assert(separated == opens_region(hits, ctx, i as int)) by {
                if separated {
                    assert(i > 0);
                }
            }
            let (next, stopped) = append_line(
                out,
                path,
                lines[i].as_str(),
                i,
                is_match,
                separated,
            );
            out = next;
            assert(lines@[i as int]@ == all[i as int]);
            if stopped {
                proof {
                    lemma_stopped(start, path@, all, hits, ctx, (i + 1) as nat, all.len());
                }
                return (out, true);
            }
        }
        proof {
            if shown {
                assert(shown_line(hits, ctx, i as int));
                assert(shown_before(hits, ctx, i + 1));
            } else if shown_before(hits, ctx, i + 1) {
                let j = choose|j: int| 0 <= j < i + 1 && #[trigger] shown_line(hits, ctx, j);
                assert(shown_line(hits, ctx, j) && j < i);
            } else if any {
                let j = choose|j: int| 0 <= j < i && #[trigger] shown_line(hits, ctx, j);
                assert(shown_line(hits, ctx, j));
            }
        }
        any = any || shown;
        prev = shown;
        i += 1;
    }
    (out, false)
}

proof fn lemma_stopped(
    start: Printed,
    path: Seq<char>,
    lines: Seq<Seq<char>>,
    matches: Seq<int>,
    context: nat,
    n: nat,
    m: nat,
)
    requires
        n <= m <= lines.len(),
        printed(start, path, lines, matches, context, n).stopped,
    ensures
        printed(start, path, lines, matches, context, m) == printed(
            start,
            path,
            lines,
            matches,
            context,
            n,
        ),
    decreases m,
{
    if n < m {
        lemma_stopped(start, path, lines, matches, context, n, (m - 1) as nat);
    }
}

fn has_match(matches: &Vec<usize>, from: usize, i: usize) -> (r: bool)
    requires
        forall|a: int, b: int|
            0 <= a < b < matches.len() ==> #[trigger] matches@[a] < #[trigger] matches@[b],
    ensures
        r == exists|k: int| from <= k < matches@.len() && #[trigger] matches@[k] == i,
{
    let mut k: usize = from;
    while k < matches.len() && matches[k] <= i
        invariant
            from <= k,
            forall|j: int| from <= j < k && j < matches.len() ==> #[trigger] matches@[j] != i,
        decreases matches.len() - k,
    {
        if matches[k] == i {
            return true;
        }
        k += 1;
    }
    proof {
        if k < matches.len() {
            assert forall|j: int| k <= j < matches.len() implies #[trigger] matches@[j] != i by {
                assert(matches@[j] >= matches@[k as int]);
            }
        }
    }
    false
}

/// Escaping loses nothing: the text can be read back from its pattern.
pub proof fn escaping_is_reversible(s: Seq<char>)
    ensures
        unescaped(regex_escaped(s)) == s,
    decreases s.len(),
{
    if s.len() > 0 {
        let rest = s.drop_last();
        escaping_is_reversible(rest);
        let t = regex_escaped(s);
        if is_regex_meta(s.last()) {
            assert(t.take(t.len() - 2) =~= regex_escaped(rest));
        } else {
            assert(t.drop_last() =~= regex_escaped(rest));
        }
        assert(unescaped(t) =~= s);
    }
}

proof fn lemma_scanned(source: (Seq<char>, bool), lines: Seq<Seq<char>>, n: nat, room: int)
    requires
        n <= lines.len(),
    ensures
        ({
            let (hits, limited) = scanned(source, lines, n, room);
            &&& forall|a: int, b: int|
                0 <= a < b < hits.len() ==> #[trigger] hits[a] < #[trigger] hits[b]
            &&& forall|a: int| 0 <= a < hits.len() ==> 0 <= #[trigger] hits[a] < n
            &&& room >= 0 ==> hits.len() <= room
            &&& room < 0 ==> hits.len() == 0
        }),
    decreases n,
{
    if n > 0 {
        lemma_scanned(source, lines, (n - 1) as nat, room);
    }
}

/// What a search has found so far.
pub struct Found {
    pub lines: Seq<Seq<char>>,
    pub bytes: nat,
    pub count: nat,
    pub truncation: Option<FallbackTruncation>,
}

/// What is found after a file: its matches up to the limit, with their context.
/// The second result says whether the search ends there. `n` lines of the file
/// were scanned.
pub open spec fn file_found(
    start: Found,
    source: (Seq<char>, bool),
    path: Seq<char>,
    lines: Seq<Seq<char>>,
    n: nat,
    context: nat,
    max_results: nat,
) -> (Found, bool) {
    let (hits, limited) = scanned(source, lines, n, max_results - start.count);
    let shown = printed(
        Printed { lines: start.lines, bytes: start.bytes, stopped: false },
        path,
        lines,
        hits,
        context,
        lines.len(),
    );
    (
        Found {
            lines: shown.lines,
            bytes: shown.bytes,
            count: start.count + hits.len(),
            truncation: if shown.stopped {
                Some(FallbackTruncation::OutputBytes)
            } else if limited {
                Some(FallbackTruncation::ResultLimit)
            } else {
                start.truncation
            },
        },
        shown.stopped || limited,
    )
}

proof fn lemma_nothing_printed(
    start: Printed,
    path: Seq<char>,
    lines: Seq<Seq<char>>,
    matches: Seq<int>,
    context: nat,
    n: nat,
)
    requires
        matches.len() == 0,
    ensures
        printed(start, path, lines, matches, context, n) == start,
    decreases n,
{
    if n > 0 && n <= lines.len() {
        lemma_nothing_printed(start, path, lines, matches, context, (n - 1) as nat);
    }
}

/// Adds what the scan of a file found. The result says whether the whole
/// search ends here, because a limit was hit.
pub fn finish_file(
    output: FallbackSearchOutput,
    matcher: &LineMatcher,
    path: &str,
    lines: &Vec<String>,
    scan: FileScan,
    context_lines: usize,
    max_results: usize,
) -> (r: (FallbackSearchOutput, bool))
    requires
        output.wf(),
        output.match_count <= max_results,
        scan.stands_at(matcher.source(), views(lines@), max_results - output.match_count),
    ensures
        r.0.wf(),
        r.0.match_count <= max_results,
        r.0.timed_out == output.timed_out,
        (r.0.found(), r.1) == file_found(
            output.found(),
            matcher.source(),
            path@,
            views(lines@),
            scan.next as nat,
            context_lines as nat,
            max_results as nat,
        ),
{
    let ghost room = max_results - output.match_count;
    let ghost hits = index_list(scan.matches@);
    let ghost all = views(lines@);
    proof {
        lemma_scanned(matcher.source(), all, scan.next as nat, room);
        assert forall|a: int, b: int| 0 <= a < b < scan.matches@.len() implies
            #[trigger] scan.matches@[a] < #[trigger] scan.matches@[b] by {
            assert(hits[a] < hits[b]);
        }
        assert forall|a: int| 0 <= a < scan.matches@.len() implies #[trigger] scan.matches@[a]
            < lines.len() by {
            assert(0 <= hits[a] < scan.next);
        }
        assert(hits.len() == scan.matches@.len());
    }
    let mut out = output;
    out.match_count = out.match_count + scan.matches.len();
    if scan.limit_reached {
        out.truncation = Some(FallbackTruncation::ResultLimit);
    }
    assert(out.printed() == output.printed());
    if scan.matches.len() == 0 {
        proof {
            lemma_nothing_printed(
                output.printed(),
                path@,
                all,
                hits,
                context_lines as nat,
                all.len(),
            );
        }
        return (out, scan.limit_reached);
    }
    let limited = scan.limit_reached;
    let (done, stopped) = print_matches(out, path, lines, &scan.matches, context_lines);
    (done, stopped || limited)
}

proof fn lemma_scan_stops(
    source: (Seq<char>, bool),
    lines: Seq<Seq<char>>,
    n: nat,
    m: nat,
    room: int,
)
    requires
        n <= m <= lines.len(),
        scanned(source, lines, n, room).1,
    ensures
        scanned(source, lines, m, room) == scanned(source, lines, n, room),
    decreases m,
{
    if n < m {
        lemma_scan_stops(source, lines, n, (m - 1) as nat, room);
    }
}

/// Searches one file to its end. The result says whether the whole search ends
/// here, because a limit was hit.
pub fn search_file(
    output: FallbackSearchOutput,
    matcher: &LineMatcher,
    path: &str,
    lines: &Vec<String>,
    context_lines: usize,
    max_results: usize,
) -> (r: (FallbackSearchOutput, bool))
    requires
        output.wf(),
        output.match_count <= max_results,
    ensures
        r.0.wf(),
        r.0.match_count <= max_results,
        r.0.timed_out == output.timed_out,
        (r.0.found(), r.1) == file_found(
            output.found(),
            matcher.source(),
            path@,
            views(lines@),
            lines@.len(),
            context_lines as nat,
            max_results as nat,
        ),
{
    let already: usize = output.match_count;
    let ghost room = max_results - already;
    let ghost all = views(lines@);
    let mut scan = FileScan::start();
    assert(scan.stands_at(matcher.source(), all, room));
    while !scan.limit_reached && scan.next < lines.len()
        invariant
            room == max_results - already,
            all == views(lines@),
            scan.stands_at(matcher.source(), all, room),
        decreases lines.len() - scan.next, (if scan.limit_reached { 0int } else { 1int }),
    {
        scan = scan.advance(matcher, lines, already, max_results);
    }
    proof {
        if scan.limit_reached {
            lemma_scan_stops(matcher.source(), all, scan.next as nat, all.len(), room);
        }
    }
    finish_file(output, matcher, path, lines, scan, context_lines, max_results)
}

/// A text file to search.
#[derive(Debug)]
pub struct TextFile {
    pub path: String,
    pub text: String,
}

pub open spec fn file_views(list: Seq<TextFile>) -> Seq<(Seq<char>, Seq<Seq<char>>)> {
    list.map_values(|f: TextFile| (f.path@, lines_of(f.text@)))
}

/// What is found in some files: each is searched in turn, until a limit is hit.
pub open spec fn files_found(
    start: Found,
    source: (Seq<char>, bool),
    files: Seq<(Seq<char>, Seq<Seq<char>>)>,
    context: nat,
    max_results: nat,
) -> Found
    decreases files.len(),
{
    if files.len() == 0 {
        start
    } else {
        let (path, lines) = files[0];
        let (next, stop) = file_found(
            start,
            source,
            path,
            lines,
            lines.len(),
            context,
            max_results,
        );
        if stop {
            next
        } else {
            files_found(next, source, files.drop_first(), context, max_results)
        }
    }
}

pub open spec fn nothing_found() -> Found {
    Found { lines: seq![], bytes: 0, count: 0, truncation: None }
}

/// Searches files in turn, until a limit is hit.
pub fn search_files(
    matcher: &LineMatcher,
    files: &Vec<TextFile>,
    context_lines: usize,
    max_results: usize,
) -> (r: FallbackSearchOutput)
    ensures
        r.wf(),
        !r.timed_out,
        r.match_count <= max_results,
        r.found() == files_found(
            nothing_found(),
            matcher.source(),
            file_views(files@),
            context_lines as nat,
            max_results as nat,
        ),
{
    let ghost all = file_views(files@);
    let ghost source = matcher.source();
    let ghost ctx = context_lines as nat;
    let ghost max = max_results as nat;
    let mut output = FallbackSearchOutput::new();
    let mut i: usize = 0;
    assert(output.found() == nothing_found()) by {
        assert(views(output.lines@) =~= seq![]);
    }
    assert(all.skip(0) =~= all);
    while i < files.len()
        invariant
            i <= files.len(),
            all == file_views(files@),
            source == matcher.source(),
            ctx == context_lines,
            max == max_results,
            output.wf(),
            !output.timed_out,
            output.match_count <= max_results,
            files_found(nothing_found(), source, all, ctx, max) == files_found(
                output.found(),
                source,
                all.skip(i as int),
                ctx,
                max,
            ),
        decreases files.len() - i,
    {
        assert(all.skip(i as int)[0] == all[i as int]);
        assert(all[i as int] == (files@[i as int].path@, lines_of(files@[i as int].text@)));
        assert(all.skip(i as int).drop_first() =~= all.skip(i + 1));
        let text = lines(files[i].text.as_str());
        assert(views(text@).len() == text@.len());
        let (next, stop) = search_file(
            output,
            matcher,
            files[i].path.as_str(),
            &text,
            context_lines,
            max_results,
        );
        output = next;
        if stop {
            return output;
        }
        i += 1;
    }
    output
}

/// Searches files in turn for a pattern; a pattern that is no regular expression
/// is refused.
pub fn fallback_regex_search(
    pattern: &str,
    case_insensitive: bool,
    provider_label: &str,
    files: &Vec<TextFile>,
    context_lines: usize,
    max_results: usize,
) -> (r: Result<FallbackSearchOutput, PatternError>)
    ensures
        r matches Ok(output) ==> output.wf() && output.match_count <= max_results && output.found()
            == files_found(
            nothing_found(),
            (pattern@, case_insensitive),
            file_views(files@),
            context_lines as nat,
            max_results as nat,
        ),
        r matches Err(e) ==> e.provider_label@ == provider_label@,
        (r matches Err(e) && e.refusal == PatternRefusal::Malformed) <==> !regex_well_formed(
            pattern@,
            case_insensitive,
        ),
{
    match LineMatcher::compile(pattern, case_insensitive, provider_label) {
        Ok(matcher) => Ok(search_files(&matcher, files, context_lines, max_results)),
        Err(e) => Err(e),
    }
}

/// Whatever is searched, the output stays within its byte budget, line feeds
/// counted.
pub proof fn fallback_output_is_bounded(
    start: Printed,
    path: Seq<char>,
    lines: Seq<Seq<char>>,
    matches: Seq<int>,
    context: nat,
    n: nat,
)
    requires
        start.bytes == output_size(start.lines),
        start.bytes <= FALLBACK_MAX_OUTPUT_BYTES,
    ensures
        ({
            let after = printed(start, path, lines, matches, context, n);
            &&& after.bytes == output_size(after.lines)
            &&& after.bytes <= FALLBACK_MAX_OUTPUT_BYTES
        }),
    decreases n,
{
    if n > 0 && n <= lines.len() {
        fallback_output_is_bounded(start, path, lines, matches, context, (n - 1) as nat);
        let before = printed(start, path, lines, matches, context, (n - 1) as nat);
        let i = n - 1;
        let text = rendered_line(path, lines[i], i, matches.contains(i));
        lemma_dash_len();
        assert(before.lines.push("--"@).drop_last() =~= before.lines);
        assert(before.lines.push("--"@).push(text).drop_last() =~= before.lines.push("--"@));
        assert(before.lines.push(text).drop_last() =~= before.lines);
        assert(output_size(before.lines.push("--"@)) == output_size(before.lines) + 3);
        assert(output_size(before.lines.push("--"@).push(text)) == output_size(before.lines) + 3
            + utf8_len(text) + 1);
        assert(output_size(before.lines.push(text)) == output_size(before.lines) + utf8_len(text)
            + 1);
    }
}

/// Reaching the result limit drops no match that was taken before.
pub proof fn result_limit_keeps_taken_matches(
    source: (Seq<char>, bool),
    lines: Seq<Seq<char>>,
    n: nat,
    m: nat,
    room: int,
)
    requires
        n <= m <= lines.len(),
    ensures
        scanned(source, lines, n, room).0.is_prefix_of(scanned(source, lines, m, room).0),
    decreases m,
{
    let a = scanned(source, lines, n, room).0;
    let b = scanned(source, lines, m, room).0;
    if n < m {
        result_limit_keeps_taken_matches(source, lines, n, (m - 1) as nat, room);
        let c = scanned(source, lines, (m - 1) as nat, room).0;
        assert(b.subrange(0, a.len() as int) =~= c.subrange(0, a.len() as int));
    } else {
        assert(b.subrange(0, a.len() as int) =~= a);
    }
}

// ---------------------------------------------------------------------------
// Reports
// ---------------------------------------------------------------------------

pub open spec fn truncation_notice(
    truncation: Option<FallbackTruncation>,
    max_results: nat,
) -> Option<Seq<char>> {
    match truncation {
        Some(FallbackTruncation::ResultLimit) => Some(
            "[... truncated at "@ + decimal(max_results) + " results]"@,
        ),
        Some(FallbackTruncation::OutputBytes) => Some(
            "[... truncated at "@ + decimal(FALLBACK_MAX_OUTPUT_BYTES as nat)
                + " byte output budget]"@,
        ),
        None => None,
    }
}

pub fn fallback_truncation_notice(
    truncation: Option<FallbackTruncation>,
    max_results: usize,
) -> (r: Option<String>)
    ensures
        opt_view(r) == truncation_notice(truncation, max_results as nat),
{
    match truncation {
        Some(FallbackTruncation::ResultLimit) => Some(
            concat3("[... truncated at ", decimal_of(max_results as u128).as_str(), " results]"),
        ),
        Some(FallbackTruncation::OutputBytes) => Some(
            concat3(
                "[... truncated at ",
                decimal_of(FALLBACK_MAX_OUTPUT_BYTES as u128).as_str(),
                " byte output budget]",
            ),
        ),
        None => None,
    }
}

pub open spec fn empty_truncation_message(
    truncation: Option<FallbackTruncation>,
    result_kind: Seq<char>,
) -> Option<Seq<char>> {
    match truncation {
        Some(FallbackTruncation::ResultLimit) => Some(
            result_kind
                + " were found but max_results was zero; increase max_results."@,
        ),
        Some(FallbackTruncation::OutputBytes) => Some(
            result_kind + " were found but the first result exceeded the "@ + decimal(
                FALLBACK_MAX_OUTPUT_BYTES as nat,
            ) + " byte output budget; narrow the pattern, path, or context_lines."@,
        ),
        None => None,
    }
}

pub fn fallback_empty_truncation_message(
    truncation: Option<FallbackTruncation>,
    result_kind: &str,
) -> (r: Option<String>)
    ensures
        opt_view(r) == empty_truncation_message(truncation, result_kind@),
{
    match truncation {
        Some(FallbackTruncation::ResultLimit) => Some(
            concat2(
                result_kind,
                " were found but max_results was zero; increase max_results.",
            ),
        ),
        Some(FallbackTruncation::OutputBytes) => Some(
            concat4(
                result_kind,
                " were found but the first result exceeded the ",
                decimal_of(FALLBACK_MAX_OUTPUT_BYTES as u128).as_str(),
                " byte output budget; narrow the pattern, path, or context_lines.",
            ),
        ),
        None => None,
    }
}

pub open spec fn timeout_suffix() -> Seq<char> {
    "\n[... timed out after "@ + decimal(SEARCH_TIMEOUT_SECS as nat)
        + "s, results may be partial]"@
}

fn timeout_text() -> (r: String)
    ensures
        r@ == timeout_suffix(),
{
    concat3(
        "\n[... timed out after ",
        decimal_of(SEARCH_TIMEOUT_SECS as u128).as_str(),
        "s, results may be partial]",
    )
}

/// The lines of a fallback search, with what cut them short.
pub open spec fn fallback_body(
    lines: Seq<Seq<char>>,
    truncation: Option<FallbackTruncation>,
    timed_out: bool,
    max_results: nat,
) -> Seq<char> {
    joined(lines, "\n"@) + match truncation_notice(truncation, max_results) {
        Some(notice) => "\n"@ + notice,
        None => seq![],
    } + if timed_out {
        timeout_suffix()
    } else {
        seq![]
    }
}

fn fallback_text(
    lines: &Vec<String>,
    truncation: Option<FallbackTruncation>,
    timed_out: bool,
    max_results: usize,
) -> (r: String)
    ensures
        r@ == fallback_body(views(lines@), truncation, timed_out, max_results as nat),
{
    let mut out = join(lines, "\n");
    if let Some(notice) = fallback_truncation_notice(truncation, max_results) {
        out.append(concat2("\n", notice.as_str()).as_str());
    }
    if timed_out {
        out.append(timeout_text().as_str());
    }
    assert(out@ =~= fallback_body(views(lines@), truncation, timed_out, max_results as nat));
    out
}

/// What a grep search without ripgrep reports.
pub open spec fn grep_fallback_result(
    lines: Seq<Seq<char>>,
    truncation: Option<FallbackTruncation>,
    timed_out: bool,
    max_results: nat,
) -> Seq<char> {
    if lines.len() > 0 {
        fallback_body(lines, truncation, timed_out, max_results)
    } else if timed_out {
        "grep_search timed out after "@ + decimal(SEARCH_TIMEOUT_SECS as nat)
            + "s with no results."@
    } else {
        match empty_truncation_message(truncation, "Matches"@) {
            Some(message) => message,
            None => "No matches found."@,
        }
    }
}

pub fn grep_fallback_report(output: &FallbackSearchOutput, max_results: usize) -> (r: String)
    ensures
        r@ == grep_fallback_result(
            views(output.lines@),
            output.truncation,
            output.timed_out,
            max_results as nat,
        ),
{
    if output.lines.len() > 0 {
        return fallback_text(&output.lines, output.truncation, output.timed_out, max_results);
    }
    if output.timed_out {
        return concat3(
            "grep_search timed out after ",
            decimal_of(SEARCH_TIMEOUT_SECS as u128).as_str(),
            "s with no results.",
        );
    }
    match fallback_empty_truncation_message(output.truncation, "Matches") {
        Some(message) => message,
        None => "No matches found.".to_owned(),
    }
}

/// Whether a line holds a keyword that defines something.
pub open spec fn defines(line: Seq<char>) -> bool {
    occurs(line, "fn "@) || occurs(line, "function "@) || occurs(line, "def "@) || occurs(
        line,
        "struct "@,
    ) || occurs(line, "class "@) || occurs(line, "type "@) || occurs(line, "enum "@) || occurs(
        line,
        "trait "@,
    ) || occurs(line, "interface "@)
}

fn has_definition_keyword(line: &str) -> (r: bool)
    ensures
        r == defines(line@),
{
    contains(line, "fn ") || contains(line, "function ") || contains(line, "def ") || contains(
        line,
        "struct ",
    ) || contains(line, "class ") || contains(line, "type ") || contains(line, "enum ")
        || contains(line, "trait ") || contains(line, "interface ")
}

/// The lines of one sort, in order.
pub open spec fn lines_where(lines: Seq<Seq<char>>, defining: bool) -> Seq<Seq<char>> {
    lines.filter(|l: Seq<char>| defines(l) == defining)
}

/// The definitions first, each sort in its own order.
pub open spec fn definitions_first(lines: Seq<Seq<char>>) -> Seq<Seq<char>> {
    lines_where(lines, true) + lines_where(lines, false)
}

fn collect_where(lines: &Vec<String>, defining: bool, out: &mut Vec<String>)
    ensures
        views(final(out)@) == views(old(out)@) + lines_where(views(lines@), defining),
{
    let ghost all = views(lines@);
    let ghost start = views(out@);
    let ghost keep = |l: Seq<char>| defines(l) == defining;
    let mut i: usize = 0;
    assert(all.take(0).filter(keep) =~= seq![]);
    assert(views(out@) =~= start + all.take(0).filter(keep));
    while i < lines.len()
        invariant
            i <= lines.len(),
            all == views(lines@),
            keep == (|l: Seq<char>| defines(l) == defining),
            views(out@) == start + all.take(i as int).filter(keep),
        decreases lines.len() - i,
    {
        proof {
            assert(all.take(i + 1).drop_last() =~= all.take(i as int));
            assert(all.take(i + 1).last() == lines@[i as int]@);
            reveal(Seq::filter);
        }
        if has_definition_keyword(lines[i].as_str()) == defining {
            let ghost before = views(out@);
            out.push(lines[i].clone());
            assert(views(out@) =~= before.push(lines@[i as int]@));
        }
        assert(views(out@) =~= start + all.take(i + 1).filter(keep));
        i += 1;
    }
    assert(all.take(i as int) =~= all);
}

/// Puts the lines that define something first.
pub fn sort_symbol_lines(lines: &Vec<String>) -> (r: Vec<String>)
    ensures
        views(r@) == definitions_first(views(lines@)),
{
    let mut out: Vec<String> = Vec::new();
    assert(views(out@) =~= seq![]);
    collect_where(lines, true, &mut out);
    collect_where(lines, false, &mut out);
    assert(views(out@) =~= definitions_first(views(lines@)));
    out
}

/// The limit of a symbol search.
pub const SYMBOL_MAX_RESULTS: usize = 100;

pub open spec fn no_symbols(query: Seq<char>, timed_out: bool) -> Seq<char> {
    if timed_out {
        "symbol_search timed out after "@ + decimal(SEARCH_TIMEOUT_SECS as nat)
            + "s with no results for '"@ + query + "'."@
    } else {
        "No symbol definitions found for '"@ + query + "'."@
    }
}

fn no_symbols_text(query: &str, timed_out: bool) -> (r: String)
    ensures
        r@ == no_symbols(query@, timed_out),
{
    if timed_out {
        concat5(
            "symbol_search timed out after ",
            decimal_of(SEARCH_TIMEOUT_SECS as u128).as_str(),
            "s with no results for '",
            query,
            "'.",
        )
    } else {
        concat3("No symbol definitions found for '", query, "'.")
    }
}

/// What a symbol search without ripgrep reports.
pub open spec fn symbol_fallback_result(
    lines: Seq<Seq<char>>,
    truncation: Option<FallbackTruncation>,
    timed_out: bool,
    query: Seq<char>,
) -> Seq<char> {
    if lines.len() > 0 {
        fallback_body(
            definitions_first(lines),
            truncation,
            timed_out,
            SYMBOL_MAX_RESULTS as nat,
        )
    } else if timed_out {
        no_symbols(query, true)
    } else {
        match empty_truncation_message(truncation, "Symbol definitions"@) {
            Some(message) => message,
            None => no_symbols(query, false),
        }
    }
}

pub fn symbol_fallback_report(output: &FallbackSearchOutput, query: &str) -> (r: String)
    ensures
        r@ == symbol_fallback_result(
            views(output.lines@),
            output.truncation,
            output.timed_out,
            query@,
        ),
{
    if output.lines.len() > 0 {
        let sorted = sort_symbol_lines(&output.lines);
        return fallback_text(&sorted, output.truncation, output.timed_out, SYMBOL_MAX_RESULTS);
    }
    if output.timed_out {
        return no_symbols_text(query, true);
    }
    match fallback_empty_truncation_message(output.truncation, "Symbol definitions") {
        Some(message) => message,
        None => no_symbols_text(query, false),
    }
}

/// What a symbol search reports of the output of ripgrep.
pub open spec fn symbol_result(text: Seq<char>, timed_out: bool, query: Seq<char>) -> Seq<char> {
    if trimmed(text).len() == 0 {
        no_symbols(query, timed_out)
    } else {
        let lines = crate::text::lines_of(text);
        let first = if lines.len() <= SYMBOL_MAX_RESULTS {
            lines
        } else {
            lines.take(SYMBOL_MAX_RESULTS as int)
        };
        joined(definitions_first(first), "\n"@) + if timed_out {
            timeout_suffix()
        } else {
            seq![]
        }
    }
}

pub fn symbol_report(text: &str, timed_out: bool, query: &str) -> (r: String)
    ensures
        r@ == symbol_result(text@, timed_out, query@),
{
    if trim(text).as_str().is_empty() {
        return no_symbols_text(query, timed_out);
    }
    let mut lines = crate::text::lines(text);
    let ghost all = views(lines@);
    if lines.len() > SYMBOL_MAX_RESULTS {
        lines.truncate(SYMBOL_MAX_RESULTS);
        assert(views(lines@) =~= all.take(SYMBOL_MAX_RESULTS as int));
    }
    let sorted = sort_symbol_lines(&lines);
    let mut out = join(&sorted, "\n");
    if timed_out {
        out.append(timeout_text().as_str());
    }
    assert(out@ =~= symbol_result(text@, timed_out, query@));
    out
}

// ---------------------------------------------------------------------------
// Reading ripgrep
// ---------------------------------------------------------------------------

/// The digits at the start of a text.
pub open spec fn digits_ahead(s: Seq<char>) -> nat
    decreases s.len(),
{
    if s.len() > 0 && is_digit(s[0]) {
        1 + digits_ahead(s.skip(1))
    } else {
        0
    }
}

/// The characters of a text before its first NUL.
pub open spec fn before_nul(s: Seq<char>) -> nat
    decreases s.len(),
{
    if s.len() > 0 && s[0] != '\0' {
        1 + before_nul(s.skip(1))
    } else {
        0
    }
}

/// Whether a line starts with a path, which a NUL ends. The search starts at an
/// absolute path, so a line that starts with a digit has none.
pub open spec fn has_path(line: Seq<char>) -> bool {
    digits_ahead(line) == 0 && before_nul(line) < line.len()
}

/// The line number and what follows it.
pub open spec fn numbered_part(line: Seq<char>) -> Seq<char> {
    if has_path(line) {
        line.skip((before_nul(line) + 1) as int)
    } else {
        line
    }
}

/// What stands behind the line number: a colon on a matching line, a dash on a
/// line of context.
pub open spec fn line_mark(line: Seq<char>) -> Option<char> {
    let part = numbered_part(line);
    let n = digits_ahead(part);
    if 0 < n < part.len() {
        Some(part[n as int])
    } else {
        None
    }
}

/// Whether a line is a matching line: lines of context, separators and notes
/// are not.
pub open spec fn matching(line: Seq<char>) -> bool {
    line_mark(line) == Some(':')
}

/// A line as it is shown: the mark of the line takes the place of the NUL.
pub open spec fn shown_as(line: Seq<char>) -> Seq<char> {
    match line_mark(line) {
        Some(mark) => if has_path(line) && (mark == ':' || mark == '-') {
            line.update(before_nul(line) as int, mark)
        } else {
            line
        },
        None => line,
    }
}

fn count_digits(cs: &Vec<char>, from: usize) -> (r: usize)
    requires
        from <= cs.len(),
    ensures
        r == digits_ahead(cs@.skip(from as int)),
        from + r <= cs.len(),
{
    let mut i: usize = from;
    while i < cs.len() && is_digit_char(cs[i])
        invariant
            from <= i <= cs.len(),
            digits_ahead(cs@.skip(from as int)) == (i - from) + digits_ahead(cs@.skip(i as int)),
        decreases cs.len() - i,
    {
        assert(cs@.skip(i as int).skip(1) =~= cs@.skip(i + 1));
        i += 1;
    }
    assert(digits_ahead(cs@.skip(i as int)) == 0);
    i - from
}

fn is_digit_char(c: char) -> (r: bool)
    ensures
        r == is_digit(c),
{
    '0' <= c && c <= '9'
}

fn find_nul(cs: &Vec<char>) -> (r: usize)
    ensures
        r == before_nul(cs@),
        r <= cs.len(),
{
    let mut i: usize = 0;
    assert(cs@.skip(0) =~= cs@);
    while i < cs.len() && cs[i] != '\0'
        invariant
            i <= cs.len(),
            before_nul(cs@) == i + before_nul(cs@.skip(i as int)),
        decreases cs.len() - i,
    {
        assert(cs@.skip(i as int).skip(1) =~= cs@.skip(i + 1));
        i += 1;
    }
    assert(before_nul(cs@.skip(i as int)) == 0);
    i
}

/// What ripgrep printed on a line: whether it matches, and how it is shown.
pub fn read_rg_line(line: &str) -> (r: (bool, String))
    ensures
        r.0 == matching(line@),
        r.1@ == shown_as(line@),
{
    let mut cs = chars_of(line);
    let nul: usize = find_nul(&cs);
    assert(cs@.skip(0) =~= cs@);
    let pathed = count_digits(&cs, 0) == 0 && nul < cs.len();
    let start: usize = if pathed {
        nul + 1
    } else {
        0
    };
    assert(cs@.skip(start as int) =~= numbered_part(line@));
    let n: usize = count_digits(&cs, start);
    if n == 0 || start + n >= cs.len() {
        return (false, line.to_owned());
    }
    let mark: char = cs[start + n];
    if pathed && (mark == ':' || mark == '-') {
        cs.set(nul, mark);
        return (mark == ':', string_of(&cs));
    }
    (mark == ':', line.to_owned())
}

/// A line on which a path, a line number and a text stand is read as what it
/// is: a matching line where colons follow the number, a line of context where
/// dashes do; it is shown with that mark behind the path.
pub proof fn printed_lines_are_told_apart(
    path: Seq<char>,
    number: Seq<char>,
    mark: char,
    text: Seq<char>,
)
    requires
        path.len() > 0,
        !is_digit(path[0]),
        !path.contains('\0'),
        number.len() > 0,
        all_digits(number),
        mark == ':' || mark == '-',
    ensures
        ({
            let line = path + seq!['\0'] + number + seq![mark] + text;
            &&& matching(line) == (mark == ':')
            &&& shown_as(line) == path + seq![mark] + number + seq![mark] + text
        }),
{
    let line = path + seq!['\0'] + number + seq![mark] + text;
    lemma_before_nul(path, seq!['\0'] + number + seq![mark] + text);
    assert(path + (seq!['\0'] + number + seq![mark] + text) =~= line);
    assert(line[0] == path[0]);
    let part = number + seq![mark] + text;
    assert(line.skip((path.len() + 1) as int) =~= part);
    lemma_digits_ahead(number, seq![mark] + text);
    assert(number + (seq![mark] + text) =~= part);
    assert(part[number.len() as int] == mark);
    assert(line.update(path.len() as int, mark) =~= path + seq![mark] + number + seq![mark] + text);
}

proof fn lemma_before_nul(a: Seq<char>, b: Seq<char>)
    requires
        !a.contains('\0'),
        b.len() > 0,
        b[0] == '\0',
    ensures
        before_nul(a + b) == a.len(),
    decreases a.len(),
{
    if a.len() == 0 {
        assert(a + b =~= b);
    } else {
        assert(a.contains(a[0]));
        let rest = a.skip(1);
        assert forall|c: char| rest.contains(c) implies a.contains(c) by {
            let i = rest.index_of(c);
            assert(a[i + 1] == c);
        }
        lemma_before_nul(rest, b);
        assert((a + b).skip(1) =~= rest + b);
    }
}

proof fn lemma_digits_ahead(a: Seq<char>, b: Seq<char>)
    requires
        all_digits(a),
        b.len() == 0 || !is_digit(b[0]),
    ensures
        digits_ahead(a + b) == a.len(),
    decreases a.len(),
{
    if a.len() == 0 {
        assert(a + b =~= b);
    } else {
        lemma_digits_ahead(a.skip(1), b);
        assert((a + b).skip(1) =~= a.skip(1) + b);
    }
}

/// The lines of ripgrep that are kept, how many of them match, and whether a
/// further match was cut off.
#[derive(Debug)]
pub struct GrepCollector {
    pub lines: Vec<String>,
    pub counted: usize,
    pub truncated: bool,
}

pub struct CollectorView {
    pub lines: Seq<Seq<char>>,
    pub counted: nat,
    pub truncated: bool,
}

impl View for GrepCollector {
    type V = CollectorView;

    open spec fn view(&self) -> CollectorView {
        CollectorView {
            lines: views(self.lines@),
            counted: self.counted as nat,
            truncated: self.truncated,
        }
    }
}

pub open spec fn nothing_collected() -> CollectorView {
    CollectorView { lines: seq![], counted: 0, truncated: false }
}

/// What is kept once a line came: everything up to the first match beyond the
/// limit.
pub open spec fn collected_with(
    c: CollectorView,
    line: Seq<char>,
    max_results: nat,
) -> CollectorView {
    if c.truncated {
        c
    } else if matching(line) && c.counted >= max_results {
        CollectorView { truncated: true, ..c }
    } else {
        CollectorView {
            lines: c.lines.push(shown_as(line)),
            counted: c.counted + if matching(line) {
                1nat
            } else {
                0
            },
            truncated: false,
        }
    }
}

/// What is kept of some lines.
pub open spec fn collected(lines: Seq<Seq<char>>, max_results: nat) -> CollectorView
    decreases lines.len(),
{
    if lines.len() == 0 {
        nothing_collected()
    } else {
        collected_with(collected(lines.drop_last(), max_results), lines.last(), max_results)
    }
}

/// The matching lines among some lines.
pub open spec fn matches_among(lines: Seq<Seq<char>>) -> nat
    decreases lines.len(),
{
    if lines.len() == 0 {
        0
    } else {
        matches_among(lines.drop_last()) + if matching(lines.last()) {
            1nat
        } else {
            0
        }
    }
}

impl GrepCollector {
    pub fn new() -> (r: GrepCollector)
        ensures
            r@ == nothing_collected(),
    {
        let r = GrepCollector { lines: Vec::new(), counted: 0, truncated: false };
        assert(views(r.lines@) =~= seq![]);
        r
    }

    /// Takes the next line; the reader goes on as long as this returns true.
    pub fn accept(&mut self, line: String, max_results: usize) -> (r: bool)
        requires
            old(self).counted <= max_results,
        ensures
            final(self)@ == collected_with(old(self)@, line@, max_results as nat),
            r == !final(self).truncated,
            final(self).counted <= max_results,
    {
        if self.truncated {
            return false;
        }
        let (matches, shown) = read_rg_line(line.as_str());
        if matches {
            if self.counted >= max_results {
                self.truncated = true;
                return false;
            }
            self.counted = self.counted + 1;
        }
        let ghost before = views(self.lines@);
        self.lines.push(shown);
        assert(views(self.lines@) =~= before.push(shown@));
        true
    }
}

/// The limit is on matching lines alone: where no more lines match than it
/// allows, every line is kept, with its context, and nothing is reported as
/// cut off.
pub proof fn context_is_not_limited(lines: Seq<Seq<char>>, max_results: nat)
    requires
        matches_among(lines) <= max_results,
    ensures
        collected(lines, max_results) == (CollectorView {
            lines: lines.map_values(|line: Seq<char>| shown_as(line)),
            counted: matches_among(lines),
            truncated: false,
        }),
    decreases lines.len(),
{
    let show = |line: Seq<char>| shown_as(line);
    if lines.len() == 0 {
        assert(lines.map_values(show) =~= seq![]);
    } else {
        context_is_not_limited(lines.drop_last(), max_results);
        assert(lines.map_values(show) =~= lines.drop_last().map_values(show).push(
            shown_as(lines.last()),
        ));
    }
}

/// No more matching lines are kept than the limit allows, and something is
/// reported as cut off exactly where more lines match than that.
pub proof fn matches_are_limited(lines: Seq<Seq<char>>, max_results: nat)
    ensures
        collected(lines, max_results).counted <= max_results,
        collected(lines, max_results).truncated <==> matches_among(lines) > max_results,
        !collected(lines, max_results).truncated ==> collected(lines, max_results).counted
            == matches_among(lines),
        collected(lines, max_results).truncated ==> collected(lines, max_results).counted
            == max_results,
    decreases lines.len(),
{
    if lines.len() > 0 {
        matches_are_limited(lines.drop_last(), max_results);
    }
}

/// How a grep search ended.
#[derive(Clone, Copy, Debug, PartialEq, Eq, Structural)]
pub enum SearchEnd {
    Exited,
    TimedOut,
    Canceled,
}

/// What the watcher of a search does next: a cancel comes before the clock,
/// the clock before the exit of the process.
pub fn watch_search(canceled: bool, elapsed_secs: u64, exited: bool) -> (r: Option<SearchEnd>)
    ensures
        r == (if canceled {
            Some(SearchEnd::Canceled)
        } else if elapsed_secs >= SEARCH_TIMEOUT_SECS {
            Some(SearchEnd::TimedOut)
        } else if exited {
            Some(SearchEnd::Exited)
        } else {
            None
        }),
{
    if canceled {
        Some(SearchEnd::Canceled)
    } else if elapsed_secs >= SEARCH_TIMEOUT_SECS {
        Some(SearchEnd::TimedOut)
    } else if exited {
        Some(SearchEnd::Exited)
    } else {
        None
    }
}

/// What a grep search reports of the output of ripgrep; nothing where it was
/// canceled before any line came.
pub open spec fn grep_result(
    lines: Seq<Seq<char>>,
    truncated: bool,
    end: SearchEnd,
    stderr: Seq<char>,
    max_results: nat,
) -> Option<Seq<char>> {
    if lines.len() == 0 {
        match end {
            SearchEnd::Canceled => None,
            SearchEnd::TimedOut => Some(
                "grep_search timed out after "@ + decimal(SEARCH_TIMEOUT_SECS as nat)
                    + "s with no results."@,
            ),
            SearchEnd::Exited => {
                let hint = prefix_chars(trimmed(stderr), 200);
                if hint.len() > 0 {
                    Some("No matches. ("@ + hint + ")"@)
                } else {
                    Some("No matches found."@)
                }
            },
        }
    } else {
        Some(
            joined(lines, "\n"@) + if truncated {
                "\n[... truncated at "@ + decimal(max_results) + " results]"@
            } else {
                seq![]
            } + match end {
                SearchEnd::TimedOut => timeout_suffix(),
                SearchEnd::Canceled => "\n[... canceled by user]"@,
                SearchEnd::Exited => seq![],
            },
        )
    }
}

pub fn grep_report(
    collected: &GrepCollector,
    end: SearchEnd,
    stderr: &str,
    max_results: usize,
) -> (r: Result<String, String>)
    ensures
        r matches Ok(text) ==> grep_result(
            views(collected.lines@),
            collected.truncated,
            end,
            stderr@,
            max_results as nat,
        ) == Some(text@),
        r matches Err(e) ==> e@ == "grep_search canceled"@ && grep_result(
            views(collected.lines@),
            collected.truncated,
            end,
            stderr@,
            max_results as nat,
        ) is None,
{
    if collected.lines.len() == 0 {
        return match end {
            SearchEnd::Canceled => Err("grep_search canceled".to_owned()),
            SearchEnd::TimedOut => Ok(
                concat3(
                    "grep_search timed out after ",
                    decimal_of(SEARCH_TIMEOUT_SECS as u128).as_str(),
                    "s with no results.",
                ),
            ),
            SearchEnd::Exited => {
                let hint = take_chars(trim(stderr).as_str(), 200);
                if !hint.as_str().is_empty() {
                    Ok(concat3("No matches. (", hint.as_str(), ")"))
                } else {
                    Ok("No matches found.".to_owned())
                }
            },
        };
    }
    let mut out = join(&collected.lines, "\n");
    if collected.truncated {
        out.append(
            concat3(
                "\n[... truncated at ",
                decimal_of(max_results as u128).as_str(),
                " results]",
            ).as_str(),
        );
    }
    match end {
        SearchEnd::TimedOut => out.append(timeout_text().as_str()),
        SearchEnd::Canceled => out.append("\n[... canceled by user]"),
        SearchEnd::Exited => {},
    }
    assert(out@ =~= grep_result(
        views(collected.lines@),
        collected.truncated,
        end,
        stderr@,
        max_results as nat,
    )->0);
    Ok(out)
}

/// The bytes of the error output that are kept.
pub const STDERR_KEPT_BYTES: usize = 512;

/// Keeps the start of the error output: as much of `chunk` as there is room
/// for.
pub fn keep_stderr(kept: &mut Vec<u8>, chunk: &Vec<u8>)
    requires
        old(kept).len() <= STDERR_KEPT_BYTES,
    ensures
        final(kept)@ == (old(kept)@ + chunk@).take(
            if old(kept).len() + chunk.len() <= STDERR_KEPT_BYTES {
                old(kept).len() + chunk.len()
            } else {
                STDERR_KEPT_BYTES as int
            },
        ),
{
    let ghost all = old(kept)@ + chunk@;
    let mut i: usize = 0;
    assert(kept@ =~= all.take(kept.len() as int));
    while i < chunk.len() && kept.len() < STDERR_KEPT_BYTES
        invariant
            i <= chunk.len(),
            old(kept).len() <= STDERR_KEPT_BYTES,
            kept.len() == old(kept).len() + i,
            kept.len() <= STDERR_KEPT_BYTES,
            all == old(kept)@ + chunk@,
            kept@ == all.take(kept.len() as int),
        decreases chunk.len() - i,
    {
        kept.push(chunk[i]);
        i += 1;
        assert(kept@ =~= all.take(kept.len() as int));
    }
}

} // verus!
