//! The bundled command line program: where it is, how it is run in a tab, and
//! how an update is applied.
use crate::commands::Platform;
use crate::json::opt_str;
use crate::key_assignment::{DomainView, SpawnTabDomain};
use crate::paths::{
    file_name, file_name_of, is_absolute, join_path, name_parts, named_parts, path_join,
    starts_with_slash,
};
use crate::text::{
    concat2, concat3, decimal, decimal_of, join, joined, opt_view, same, same_strings, views,
};
use vstd::prelude::*;
use vstd::string::*;

verus! {

/// What the user is told where an update could not be applied.
pub const UPDATE_FAILED_TITLE: &'static str = "Update Failed";

pub const UPDATE_FAILED_MESSAGE: &'static str = "Automatic update failed. Trying manual update.";

// ---------------------------------------------------------------------------
// The program
// ---------------------------------------------------------------------------

/// Whether two paths have the same components.
pub open spec fn same_path(a: Seq<char>, b: Seq<char>) -> bool {
    is_absolute(a) == is_absolute(b) && named_parts(a) == named_parts(b)
}

fn is_same_path(a: &str, b: &str) -> (r: bool)
    ensures
        r == same_path(a@, b@),
{
    let x = name_parts(a);
    let y = name_parts(b);
    starts_with_slash(a) == starts_with_slash(b) && same_strings(&x, &y)
}

pub open spec fn has_path(list: Seq<Seq<char>>, path: Seq<char>) -> bool {
    exists|i: int| 0 <= i < list.len() && same_path(#[trigger] list[i], path)
}

/// The candidates with one more, unless it is among them.
pub open spec fn with_candidate(list: Seq<Seq<char>>, path: Seq<char>) -> Seq<Seq<char>> {
    if has_path(list, path) {
        list
    } else {
        list.push(path)
    }
}

pub open spec fn with_opt_candidate(list: Seq<Seq<char>>, path: Option<Seq<char>>) -> Seq<
    Seq<char>,
> {
    match path {
        Some(p) => with_candidate(list, p),
        None => list,
    }
}

/// The program beside another one.
pub open spec fn beside(parent: Option<Seq<char>>) -> Option<Seq<char>> {
    match parent {
        Some(dir) => Some(path_join(dir, "kaku"@)),
        None => None,
    }
}

/// Where the program may be, in the order of preference.
pub open spec fn candidate_paths(
    env_bin: Option<Seq<char>>,
    exe_dir: Option<Seq<char>>,
    resolved_dir: Option<Seq<char>>,
    home: Seq<char>,
    platform: Platform,
) -> Seq<Seq<char>> {
    let own = with_opt_candidate(
        with_opt_candidate(with_opt_candidate(seq![], env_bin), beside(exe_dir)),
        beside(resolved_dir),
    );
    let user = with_candidate(own, path_join(home, ".config/kaku/zsh/bin/kaku"@));
    if platform == Platform::MacOs {
        with_candidate(
            with_candidate(user, "/Applications/Kaku.app/Contents/MacOS/kaku"@),
            path_join(home, "Applications/Kaku.app/Contents/MacOS/kaku"@),
        )
    } else {
        user
    }
}

fn add_candidate(list: &mut Vec<String>, path: &str)
    ensures
        views(final(list)@) == with_candidate(views(old(list)@), path@),
{
    let ghost all = views(list@);
    let mut i: usize = 0;
    while i < list.len()
        invariant
            i <= list.len(),
            list@ == old(list)@,
            all == views(list@),
            forall|k: int| 0 <= k < i ==> !same_path(#[trigger] all[k], path@),
        decreases list.len() - i,
    {
        assert(all[i as int] == list@[i as int]@);
        if is_same_path(list[i].as_str(), path) {
            return;
        }
        i += 1;
    }
    list.push(path.to_owned());
    assert(views(list@) =~= all.push(path@));
}

fn add_beside(list: &mut Vec<String>, parent: Option<&str>)
    ensures
        views(final(list)@) == with_opt_candidate(views(old(list)@), beside(opt_str(parent))),
{
    if let Some(dir) = parent {
        let path = join_path(dir, "kaku");
        add_candidate(list, path.as_str());
    }
}

/// Where the program may be, in the order of preference: named by the
/// environment, beside the running executable, in the user's shell setup, or in
/// an installed application.
pub fn kaku_candidates(
    env_bin: Option<&str>,
    exe_dir: Option<&str>,
    resolved_dir: Option<&str>,
    home: &str,
    platform: Platform,
) -> (r: Vec<String>)
    ensures
        views(r@) == candidate_paths(
            opt_str(env_bin),
            opt_str(exe_dir),
            opt_str(resolved_dir),
            home@,
            platform,
        ),
{
    let mut list: Vec<String> = Vec::new();
    assert(views(list@) =~= seq![]);
    if let Some(path) = env_bin {
        add_candidate(&mut list, path);
    }
    add_beside(&mut list, exe_dir);
    add_beside(&mut list, resolved_dir);
    let user = join_path(home, ".config/kaku/zsh/bin/kaku");
    add_candidate(&mut list, user.as_str());
    if platform == Platform::MacOs {
        add_candidate(&mut list, "/Applications/Kaku.app/Contents/MacOS/kaku");
        let own = join_path(home, "Applications/Kaku.app/Contents/MacOS/kaku");
        add_candidate(&mut list, own.as_str());
    }
    list
}

/// No place is looked at twice.
pub proof fn candidates_are_distinct(
    env_bin: Option<Seq<char>>,
    exe_dir: Option<Seq<char>>,
    resolved_dir: Option<Seq<char>>,
    home: Seq<char>,
    platform: Platform,
)
    ensures
        ({
            let list = candidate_paths(env_bin, exe_dir, resolved_dir, home, platform);
            &&& list.len() > 0
            &&& forall|i: int, j: int|
                0 <= i < j < list.len() ==> !same_path(#[trigger] list[i], #[trigger] list[j])
        }),
{
}

/// The first candidate that exists, if any.
pub open spec fn first_existing(list: Seq<Seq<char>>, exists_at: Seq<bool>, n: nat) -> Option<
    Seq<char>,
>
    decreases n,
{
    if n == 0 {
        None
    } else {
        match first_existing(list, exists_at, (n - 1) as nat) {
            Some(p) => Some(p),
            None => if exists_at[n - 1] {
                Some(list[n - 1])
            } else {
                None
            },
        }
    }
}

pub open spec fn path_found(r: Result<String, String>) -> Result<Seq<char>, Seq<char>> {
    match r {
        Ok(p) => Ok(p@),
        Err(e) => Err(e@),
    }
}

/// Picks the first candidate that exists.
pub fn resolve_bundled_kaku_bin(candidates: &Vec<String>, exists_at: &Vec<bool>) -> (r: Result<
    String,
    String,
>)
    requires
        exists_at.len() == candidates.len(),
    ensures
        path_found(r) == (match first_existing(
            views(candidates@),
            exists_at@,
            candidates@.len(),
        ) {
            Some(p) => Ok(p),
            None => Err(
                "could not find kaku binary; checked: "@ + joined(views(candidates@), ", "@),
            ),
        }),
{
    let ghost all = views(candidates@);
    let mut found: Option<String> = None;
    let mut i: usize = 0;
    while i < candidates.len()
        invariant
            i <= candidates.len() == exists_at.len(),
            all == views(candidates@),
            opt_view(found) == first_existing(all, exists_at@, i as nat),
        decreases candidates.len() - i,
    {
        assert(all[i as int] == candidates@[i as int]@);
        if found.is_none() && exists_at[i] {
            found = Some(candidates[i].clone());
        }
        i += 1;
    }
    match found {
        Some(path) => Ok(path),
        None => {
            let list = join(candidates, ", ");
            Err(concat2("could not find kaku binary; checked: ", list.as_str()))
        },
    }
}

/// The program to spawn. Finder-launched apps can have a minimal PATH; a lookup
/// in it is only for when the bundled companion binary cannot be resolved.
pub fn kaku_cli_program_for_spawn(resolved: &Result<String, String>) -> (r: String)
    ensures
        r@ == (match *resolved {
            Ok(path) => path@,
            Err(_) => "kaku"@,
        }),
{
    match resolved {
        Ok(path) => path.clone(),
        Err(_) => "kaku".to_owned(),
    }
}

/// A word, quoted for a POSIX shell: `shlex::try_quote`.
pub uninterp spec fn quoted_word(word: Seq<char>) -> Seq<char>;

/// Quotes a word with `shlex::try_quote`: a function of the word, and nothing
/// for a word with a NUL in it, which no shell can be handed. How a word is
/// quoted is not stated.
#[verifier::external_body]
pub(crate) fn quote_word(word: &str) -> (r: Option<String>)
    ensures
        opt_view(r) == (if word@.contains('\0') {
            None
        } else {
            Some(quoted_word(word@))
        }),
{
    match shlex::try_quote(word) {
        Ok(quoted) => Some(quoted.into_owned()),
        Err(_) => None,
    }
}

/// A program as a word of a command line.
pub open spec fn program_word(program: Seq<char>) -> Seq<char> {
    if program.contains('\0') {
        program
    } else {
        quoted_word(program)
    }
}

/// What stands for the program, from its quoted form.
pub fn quoted_or(program: &str, quoted: Option<String>) -> (r: String)
    ensures
        r@ == (match quoted {
            Some(q) => q@,
            None => program@,
        }),
{
    match quoted {
        Some(q) => q,
        None => program.to_owned(),
    }
}

/// A program as a word of a command line.
pub fn shell_quote_program(program: &str) -> (r: String)
    ensures
        r@ == program_word(program@),
{
    quoted_or(program, quote_word(program))
}

/// The bundled CLI as a single shell-quoted token, for typing into an
/// interactive shell (menu actions). Spawn paths take the unquoted program
/// instead.
pub fn kaku_cli_shell_invocation(resolved: &Result<String, String>) -> (r: String)
    ensures
        r@ == program_word(
            match *resolved {
                Ok(path) => path@,
                Err(_) => "kaku"@,
            },
        ),
{
    let program = kaku_cli_program_for_spawn(resolved);
    shell_quote_program(program.as_str())
}

// ---------------------------------------------------------------------------
// Spawning
// ---------------------------------------------------------------------------

/// Where a program is spawned.
#[derive(Clone, Copy, Debug, PartialEq, Eq, Structural)]
pub enum SpawnWhere {
    NewWindow,
    NewTab,
}

/// A program to spawn.
#[derive(Debug)]
pub struct SpawnPlan {
    pub args: Option<Vec<String>>,
    pub domain: SpawnTabDomain,
    pub place: SpawnWhere,
}

pub struct SpawnPlanView {
    pub args: Option<Seq<Seq<char>>>,
    pub domain: DomainView,
    pub place: SpawnWhere,
}

impl View for SpawnPlan {
    type V = SpawnPlanView;

    open spec fn view(&self) -> SpawnPlanView {
        SpawnPlanView {
            args: match self.args {
                Some(list) => Some(views(list@)),
                None => None,
            },
            domain: self.domain@,
            place: self.place,
        }
    }
}

/// Opens the settings. They are kept isolated from active coding tabs so that
/// ESC inside them does not race with focus return on tab close.
pub fn open_kaku_config(program: &str) -> (r: SpawnPlan)
    ensures
        r@ == (SpawnPlanView {
            args: Some(seq![program@, "config"@]),
            domain: DomainView::DomainName("local"@),
            place: SpawnWhere::NewWindow,
        }),
{
    let mut args: Vec<String> = Vec::new();
    args.push(program.to_owned());
    args.push("config".to_owned());
    assert(views(args@) =~= seq![program@, "config"@]);
    SpawnPlan {
        args: Some(args),
        domain: SpawnTabDomain::DomainName("local".to_owned()),
        place: SpawnWhere::NewWindow,
    }
}

/// The command line of a subcommand: it waits briefly at its end, so that the
/// user can read the output.
pub open spec fn subcommand_line(
    program: Seq<char>,
    subcommand: Seq<char>,
    auto_confirm: bool,
) -> Seq<char> {
    (if subcommand == "update"@ && auto_confirm {
        "KAKU_UPDATE_AUTO_CONFIRM=1 "@
    } else {
        ""@
    }) + program_word(program) + " "@ + subcommand + "; sleep 2"@
}

/// The arguments that run a command line in a login shell.
pub open spec fn login_shell_args(shell: Seq<char>, line: Seq<char>) -> Seq<Seq<char>> {
    if file_name_of(shell) == Some("fish"@) {
        seq![shell, "-l"@, "-i"@, "-c"@, line]
    } else {
        seq![shell, "-lic"@, line]
    }
}

/// Runs a subcommand of the program in a new tab, in a login and interactive
/// shell, to match the default tab behavior: this sources the profile, where
/// users typically export proxy variables. The installation is only confirmed
/// beforehand where the user already agreed to it.
pub fn run_kaku_subcommand_in_new_tab(
    program: &str,
    shell: Option<&str>,
    subcommand: &str,
    auto_confirm: bool,
) -> (r: SpawnPlan)
    ensures
        r@ == (SpawnPlanView {
            args: Some(
                login_shell_args(
                    match opt_str(shell) {
                        Some(s) => s,
                        None => "sh"@,
                    },
                    subcommand_line(program@, subcommand@, auto_confirm),
                ),
            ),
            domain: DomainView::DomainName("local"@),
            place: SpawnWhere::NewTab,
        }),
{
    let word = shell_quote_program(program);
    let shell = match shell {
        Some(s) => s.to_owned(),
        None => "sh".to_owned(),
    };
    let mut line = if same(subcommand, "update") && auto_confirm {
        "KAKU_UPDATE_AUTO_CONFIRM=1 ".to_owned()
    } else {
        "".to_owned()
    };
    line.append(word.as_str());
    line.append(" ");
    line.append(subcommand);
    line.append("; sleep 2");
    let is_fish = match file_name(shell.as_str()) {
        Some(name) => same(name.as_str(), "fish"),
        None => false,
    };
    let ghost shell_text = shell@;
    let ghost line_text = line@;
    let mut args: Vec<String> = Vec::new();
    args.push(shell);
    if is_fish {
        args.push("-l".to_owned());
        args.push("-i".to_owned());
        args.push("-c".to_owned());
    } else {
        args.push("-lic".to_owned());
    }
    args.push(line);
    assert(views(args@) =~= login_shell_args(shell_text, line_text));
    SpawnPlan {
        args: Some(args),
        domain: SpawnTabDomain::DomainName("local".to_owned()),
        place: SpawnWhere::NewTab,
    }
}

pub fn run_kaku_doctor_in_new_tab(program: &str, shell: Option<&str>) -> (r: SpawnPlan)
    ensures
        r@ == (SpawnPlanView {
            args: Some(
                login_shell_args(
                    match opt_str(shell) {
                        Some(s) => s,
                        None => "sh"@,
                    },
                    subcommand_line(program@, "doctor"@, false),
                ),
            ),
            domain: DomainView::DomainName("local"@),
            place: SpawnWhere::NewTab,
        }),
{
    run_kaku_subcommand_in_new_tab(program, shell, "doctor", false)
}

// ---------------------------------------------------------------------------
// Windows of which there is one
// ---------------------------------------------------------------------------

/// A window of which there is at most one.
#[derive(Debug)]
pub struct SingletonState {
    pub namespace: String,
    pub window_id: u64,
    pub pending: bool,
}

pub struct SingletonView {
    pub window_id: u64,
    pub pending: bool,
}

#[derive(Debug)]
pub struct SingletonWindows {
    pub entries: Vec<SingletonState>,
}

/// What to do about a request for such a window.
#[derive(Clone, Copy, Debug, PartialEq, Eq, Structural)]
pub enum SingletonStep {
    /// It is being opened already.
    Ignore,
    Focus(u64),
    Open,
}

pub open spec fn singletons(list: Seq<SingletonState>) -> Map<Seq<char>, SingletonView>
    decreases list.len(),
{
    if list.len() == 0 {
        Map::empty()
    } else {
        let e = list.last();
        singletons(list.drop_last()).insert(
            e.namespace@,
            SingletonView { window_id: e.window_id, pending: e.pending },
        )
    }
}

/// No namespace has two entries.
pub open spec fn namespaces_differ(list: Seq<SingletonState>) -> bool {
    forall|i: int, j: int|
        0 <= i < j < list.len() ==> (#[trigger] list[i]).namespace@ != (
        #[trigger] list[j]).namespace@
}

proof fn lemma_singleton(list: Seq<SingletonState>, i: int)
    requires
        namespaces_differ(list),
        0 <= i < list.len(),
    ensures
        singletons(list).contains_key(list[i].namespace@),
        singletons(list)[list[i].namespace@] == (SingletonView {
            window_id: list[i].window_id,
            pending: list[i].pending,
        }),
    decreases list.len(),
{
    let before = list.drop_last();
    if i < before.len() {
        assert(namespaces_differ(before)) by {
            assert forall|a: int, b: int| 0 <= a < b < before.len() implies (
            #[trigger] before[a]).namespace@ != (#[trigger] before[b]).namespace@ by {
                assert(before[a] == list[a] && before[b] == list[b]);
            }
        }
        lemma_singleton(before, i);
        assert(before[i] == list[i]);
        assert(list[i].namespace@ != list[list.len() - 1].namespace@);
    }
}

proof fn lemma_singleton_dom(list: Seq<SingletonState>, name: Seq<char>) -> (i: int)
    requires
        singletons(list).contains_key(name),
    ensures
        0 <= i < list.len(),
        list[i].namespace@ == name,
        singletons(list)[name] == (SingletonView {
            window_id: list[i].window_id,
            pending: list[i].pending,
        }),
    decreases list.len(),
{
    if list.last().namespace@ == name {
        list.len() - 1
    } else {
        let i = lemma_singleton_dom(list.drop_last(), name);
        assert(list.drop_last()[i] == list[i]);
        i
    }
}

impl SingletonWindows {
    pub open spec fn wf(self) -> bool {
        namespaces_differ(self.entries@)
    }

    pub fn new() -> (r: SingletonWindows)
        ensures
            r.wf(),
            singletons(r.entries@) == Map::<Seq<char>, SingletonView>::empty(),
    {
        SingletonWindows { entries: Vec::new() }
    }

    fn find(&self, namespace: &str) -> (r: Option<usize>)
        requires
            self.wf(),
        ensures
            match r {
                Some(i) => i < self.entries.len() && self.entries@[i as int].namespace@
                    == namespace@ && singletons(self.entries@).contains_key(namespace@)
                    && singletons(self.entries@)[namespace@] == (SingletonView {
                    window_id: self.entries@[i as int].window_id,
                    pending: self.entries@[i as int].pending,
                }),
                None => !singletons(self.entries@).contains_key(namespace@),
            },
    {
        let mut i: usize = 0;
        while i < self.entries.len()
            invariant
                self.wf(),
                i <= self.entries.len(),
                forall|k: int|
                    0 <= k < i ==> (#[trigger] self.entries@[k]).namespace@ != namespace@,
            decreases self.entries.len() - i,
        {
            if same(self.entries[i].namespace.as_str(), namespace) {
                proof {
                    lemma_singleton(self.entries@, i as int);
                }
                return Some(i);
            }
            i += 1;
        }
        proof {
            if singletons(self.entries@).contains_key(namespace@) {
                let k = lemma_singleton_dom(self.entries@, namespace@);
                assert(self.entries@[k].namespace@ != namespace@);
            }
        }
        None
    }

    fn put(&mut self, namespace: &str, window_id: u64, pending: bool)
        requires
            old(self).wf(),
        ensures
            final(self).wf(),
            singletons(final(self).entries@) == singletons(old(self).entries@).insert(
                namespace@,
                SingletonView { window_id, pending },
            ),
    {
        self.drop_entry(namespace);
        let ghost rest = self.entries@;
        let entry = SingletonState { namespace: namespace.to_owned(), window_id, pending };
        self.entries.push(entry);
        proof {
            let after = self.entries@;
            assert(after.drop_last() =~= rest);
            assert forall|a: int, b: int| 0 <= a < b < after.len() implies (
            #[trigger] after[a]).namespace@ != (#[trigger] after[b]).namespace@ by {
                assert(after[a] == rest[a]);
                if b < rest.len() {
                    assert(after[b] == rest[b]);
                } else {
                    lemma_singleton(rest, a);
                }
            }
            assert(singletons(after) =~= singletons(old(self).entries@).insert(
                namespace@,
                SingletonView { window_id, pending },
            ));
        }
    }

    fn drop_entry(&mut self, namespace: &str)
        requires
            old(self).wf(),
        ensures
            final(self).wf(),
            singletons(final(self).entries@) == singletons(old(self).entries@).remove(namespace@),
    {
        let ghost before = self.entries@;
        match self.find(namespace) {
            Some(i) => {
                self.entries.remove(i);
                proof {
                    let after = self.entries@;
                    assert forall|a: int, b: int| 0 <= a < b < after.len() implies (
                    #[trigger] after[a]).namespace@ != (#[trigger] after[b]).namespace@ by {
                        let pa: int = if a < i { a } else { a + 1 };
                        let pb: int = if b < i { b } else { b + 1 };
                        assert(after[a] == before[pa] && after[b] == before[pb]);
                    }
                    let target = singletons(before).remove(namespace@);
                    assert forall|w: Seq<char>| (#[trigger] singletons(after).dom().contains(w))
                        == target.dom().contains(w) && (target.contains_key(w) ==> singletons(
                        after,
                    )[w] == target[w]) by {
                        if singletons(after).contains_key(w) {
                            let k = lemma_singleton_dom(after, w);
                            let p: int = if k < i { k } else { k + 1 };
                            assert(after[k] == before[p]);
                            lemma_singleton(before, p);
                            assert(w != namespace@) by {
                                assert(before[i as int].namespace@ == namespace@);
                                if p < i {
                                    assert(before[p].namespace@ != before[i as int].namespace@);
                                } else {
                                    assert(before[i as int].namespace@ != before[p].namespace@);
                                }
                            }
                        }
                        if target.contains_key(w) {
                            let p = lemma_singleton_dom(before, w);
                            let k: int = if p < i { p } else { p - 1 };
                            assert(p != i);
                            assert(after[k] == before[p]);
                            lemma_singleton(after, k);
                        }
                    }
                    assert(singletons(after) =~= target);
                }
            },
            None => {
                assert(singletons(before) =~= singletons(before).remove(namespace@));
            },
        }
    }

    /// Opens or focuses a window: where there is one on screen, it gets the focus;
    /// where one is being opened, nothing happens; else it is marked as being
    /// opened. `on_screen` says whether the window of the namespace is shown.
    pub fn ensure_singleton_window(
        &mut self,
        namespace: &str,
        on_screen: bool,
    ) -> (r: SingletonStep)
        requires
            old(self).wf(),
        ensures
            final(self).wf(),
            ({
                let before = singletons(old(self).entries@);
                let here = before.contains_key(namespace@);
                r == (if here && before[namespace@].pending {
                    SingletonStep::Ignore
                } else if here && on_screen {
                    SingletonStep::Focus(before[namespace@].window_id)
                } else {
                    SingletonStep::Open
                })
            }),
            singletons(final(self).entries@) == (if r is Open {
                singletons(old(self).entries@).insert(
                    namespace@,
                    SingletonView { window_id: 0, pending: true },
                )
            } else {
                singletons(old(self).entries@)
            }),
    {
        if let Some(i) = self.find(namespace) {
            if self.entries[i].pending {
                return SingletonStep::Ignore;
            }
            if on_screen {
                return SingletonStep::Focus(self.entries[i].window_id);
            }
        }
        self.put(namespace, 0, true);
        SingletonStep::Open
    }

    /// A window was opened.
    pub fn opened(&mut self, namespace: &str, window_id: u64)
        requires
            old(self).wf(),
        ensures
            final(self).wf(),
            singletons(final(self).entries@) == (if singletons(old(self).entries@).contains_key(
                namespace@,
            ) {
                singletons(old(self).entries@).insert(
                    namespace@,
                    SingletonView { window_id, pending: false },
                )
            } else {
                singletons(old(self).entries@)
            }),
    {
        if self.find(namespace).is_some() {
            self.put(namespace, window_id, false);
        }
    }

    /// A window could not be opened.
    pub fn failed(&mut self, namespace: &str)
        requires
            old(self).wf(),
        ensures
            final(self).wf(),
            singletons(final(self).entries@) == singletons(old(self).entries@).remove(namespace@),
    {
        self.drop_entry(namespace);
    }
}

// ---------------------------------------------------------------------------
// Updates
// ---------------------------------------------------------------------------

/// What is done about an update. Every user-facing path confirms before the
/// application is replaced.
#[derive(Clone, Copy, Debug, PartialEq, Eq, Structural)]
pub enum UpdateStep {
    /// Ask before anything destructive happens, so that a stray click cannot kill
    /// running tasks.
    ShowConfirmation,
    /// The user agreed, or there is no window to ask in.
    ApplyNow,
    /// Apply the staged package and restart.
    RestartToUpdate,
    /// Run `kaku update` in a tab. It asks, unless the user agreed already.
    RunInTab { auto_confirm: bool },
}

/// Where "Check for Updates..." leads.
pub open spec fn menu_check(staged: bool, has_window: bool) -> UpdateStep {
    if staged {
        confirmed_update(has_window)
    } else {
        UpdateStep::RunInTab { auto_confirm: false }
    }
}

/// Where a toast click or "Restart to Update" leads.
pub open spec fn confirmed_update(has_window: bool) -> UpdateStep {
    if has_window {
        UpdateStep::ShowConfirmation
    } else {
        UpdateStep::ApplyNow
    }
}

/// Menu "Check for Updates...". When a staged package is already ready, ask
/// before restarting (same overlay as toast). Otherwise open a tab that runs
/// `kaku update` interactively so the CLI can prompt before install.
pub fn check_for_updates_from_menu(staged: bool, has_window: bool) -> (r: UpdateStep)
    ensures
        r == menu_check(staged, has_window),
{
    if staged {
        confirm_and_apply_update(has_window)
    } else {
        run_kaku_update_from_menu()
    }
}

/// Open a terminal tab running `kaku update` without pre-confirming install.
/// Used by the menu check path and by staged-update failure fallbacks.
pub fn run_kaku_update_from_menu() -> (r: UpdateStep)
    ensures
        r == (UpdateStep::RunInTab { auto_confirm: false }),
{
    UpdateStep::RunInTab { auto_confirm: false }
}

/// Entry point for toast click and menu "Restart to Update". Falls back to
/// applying directly only when there is no GUI window to host the overlay.
pub fn confirm_and_apply_update(has_window: bool) -> (r: UpdateStep)
    ensures
        r == confirmed_update(has_window),
{
    if has_window {
        UpdateStep::ShowConfirmation
    } else {
        UpdateStep::ApplyNow
    }
}

/// Apply the pending update now. Called only after the user confirms in the
/// update overlay (or as a fallback when no window can host the overlay).
/// Uses the staged fast-path when available, else the terminal-tab flow with
/// auto-confirm (user already approved the restart in the overlay).
pub fn apply_update_now(staged: bool) -> (r: UpdateStep)
    ensures
        r == (if staged {
            UpdateStep::RestartToUpdate
        } else {
            UpdateStep::RunInTab { auto_confirm: true }
        }),
{
    if staged {
        UpdateStep::RestartToUpdate
    } else {
        UpdateStep::RunInTab { auto_confirm: true }
    }
}

/// Keeps two updates from running at once.
#[derive(Clone, Copy, Debug, PartialEq, Eq, Structural)]
pub struct UpdateGuard {
    pub running: bool,
}

impl UpdateGuard {
    /// Whether the caller is the one to run the update.
    pub fn claim(&mut self) -> (r: bool)
        ensures
            r == !old(self).running,
            final(self).running,
    {
        let free = !self.running;
        self.running = true;
        free
    }

    /// Lets the user try again.
    pub fn release(&mut self)
        ensures
            !final(self).running,
    {
        self.running = false;
    }
}

/// How far a restart has come: what was tried last.
#[derive(Clone, Copy, Debug, PartialEq, Eq, Structural)]
pub enum RestartStage {
    LookForPackage,
    ResolveTarget,
    CreateDirectory,
    WriteScript,
    SpawnHelper,
}

/// What is done next in a restart.
#[derive(Debug)]
pub enum RestartStep {
    /// Try the next stage.
    Try(RestartStage),
    /// The helper replaces the application from here.
    Finished,
    /// Fall back to an update in a tab, and let the user try again. `toast` says
    /// whether the user is told that the update failed.
    FallBack { log: String, toast: bool, discard_package: bool },
}

pub enum RestartView {
    Try(RestartStage),
    Finished,
    FallBack { log: Seq<char>, toast: bool, discard_package: bool },
}

impl View for RestartStep {
    type V = RestartView;

    open spec fn view(&self) -> RestartView {
        match *self {
            RestartStep::Try(stage) => RestartView::Try(stage),
            RestartStep::Finished => RestartView::Finished,
            RestartStep::FallBack { log, toast, discard_package } => RestartView::FallBack {
                log: log@,
                toast,
                discard_package,
            },
        }
    }
}

/// What is said of a stage that failed.
pub open spec fn failure_log(stage: RestartStage, error: Seq<char>) -> Seq<char> {
    match stage {
        RestartStage::LookForPackage => "no staged update available, falling back to menu flow"@,
        RestartStage::ResolveTarget => "failed to resolve target app: "@ + error,
        RestartStage::CreateDirectory => "failed to create updates dir: "@ + error,
        RestartStage::WriteScript => "failed to write helper script: "@ + error,
        RestartStage::SpawnHelper => "failed to spawn helper: "@ + error,
    }
}

pub open spec fn next_restart(stage: RestartStage, error: Option<Seq<char>>) -> RestartView {
    match error {
        Some(e) => RestartView::FallBack {
            log: failure_log(stage, e),
            toast: !(stage is LookForPackage),
            discard_package: stage is SpawnHelper,
        },
        None => match stage {
            RestartStage::LookForPackage => RestartView::Try(RestartStage::ResolveTarget),
            RestartStage::ResolveTarget => RestartView::Try(RestartStage::CreateDirectory),
            RestartStage::CreateDirectory => RestartView::Try(RestartStage::WriteScript),
            RestartStage::WriteScript => RestartView::Try(RestartStage::SpawnHelper),
            RestartStage::SpawnHelper => RestartView::Finished,
        },
    }
}

/// Apply a previously staged update by spawning the helper script directly,
/// without opening a terminal tab: what follows a stage, from how it went.
pub fn restart_to_update(stage: RestartStage, error: Option<&str>) -> (r: RestartStep)
    ensures
        r@ == next_restart(stage, opt_str(error)),
{
    match error {
        Some(e) => {
            let log = match stage {
                RestartStage::LookForPackage => {
                    "no staged update available, falling back to menu flow".to_owned()
                },
                RestartStage::ResolveTarget => concat2("failed to resolve target app: ", e),
                RestartStage::CreateDirectory => concat2("failed to create updates dir: ", e),
                RestartStage::WriteScript => concat2("failed to write helper script: ", e),
                RestartStage::SpawnHelper => concat2("failed to spawn helper: ", e),
            };
            RestartStep::FallBack {
                log,
                toast: stage != RestartStage::LookForPackage,
                discard_package: stage == RestartStage::SpawnHelper,
            }
        },
        None => match stage {
            RestartStage::LookForPackage => RestartStep::Try(RestartStage::ResolveTarget),
            RestartStage::ResolveTarget => RestartStep::Try(RestartStage::CreateDirectory),
            RestartStage::CreateDirectory => RestartStep::Try(RestartStage::WriteScript),
            RestartStage::WriteScript => RestartStep::Try(RestartStage::SpawnHelper),
            RestartStage::SpawnHelper => RestartStep::Finished,
        },
    }
}

/// The name of the helper script.
pub fn helper_script_name(now_secs: u64) -> (r: String)
    ensures
        r@ == "apply-staged-"@ + decimal(now_secs as nat) + ".sh"@,
{
    let digits = decimal_of(now_secs as u128);
    concat3("apply-staged-", digits.as_str(), ".sh")
}

/// Every user-facing path asks before the application is replaced, as long as
/// there is a window to ask in: neither the menu nor a toast restarts by itself,
/// and an update in a tab that nobody agreed to is not told to go ahead.
pub proof fn user_paths_ask_first(staged: bool, program: Seq<char>, subcommand: Seq<char>)
    ensures
        menu_check(staged, true) is ShowConfirmation || menu_check(staged, true)
            == (UpdateStep::RunInTab { auto_confirm: false }),
        confirmed_update(true) is ShowConfirmation,
        subcommand_line(program, subcommand, false) == program_word(program) + " "@ + subcommand
            + "; sleep 2"@,
{
    reveal_strlit("");
    assert(""@ + program_word(program) =~= program_word(program));
}

// ---------------------------------------------------------------------------
// The default terminal
// ---------------------------------------------------------------------------

/// How the user learns what came of something.
#[derive(Debug)]
pub enum Feedback {
    /// A toast in every window.
    Toast(String),
    /// An alert with a title.
    Alert { title: String, message: String },
    /// Nothing but the log.
    LogOnly(String),
}

pub enum FeedbackView {
    Toast(Seq<char>),
    Alert { title: Seq<char>, message: Seq<char> },
    LogOnly(Seq<char>),
}

impl View for Feedback {
    type V = FeedbackView;

    open spec fn view(&self) -> FeedbackView {
        match *self {
            Feedback::Toast(text) => FeedbackView::Toast(text@),
            Feedback::Alert { title, message } => FeedbackView::Alert {
                title: title@,
                message: message@,
            },
            Feedback::LogOnly(text) => FeedbackView::LogOnly(text@),
        }
    }
}

/// What came of making this the default terminal.
#[derive(Debug)]
pub enum DefaultTerminal {
    /// There is no connection to ask.
    Unavailable,
    Done,
    Failed(String),
}

pub open spec fn default_terminal_feedback(outcome: DefaultTerminal, windows: usize) -> FeedbackView {
    match outcome {
        DefaultTerminal::Unavailable => FeedbackView::LogOnly(
            "Cannot set default terminal because no GUI connection is available"@,
        ),
        DefaultTerminal::Done => if windows > 0 {
            FeedbackView::Toast("Kaku is now the default terminal"@)
        } else {
            FeedbackView::Alert {
                title: "Default Terminal"@,
                message: "Kaku is now the default terminal"@,
            }
        },
        DefaultTerminal::Failed(e) => if windows > 0 {
            FeedbackView::Toast("Failed to set default terminal"@)
        } else {
            FeedbackView::Alert {
                title: "Default Terminal"@,
                message: "Failed to set Kaku as default terminal: "@ + e@,
            }
        },
    }
}

pub fn set_default_terminal_with_feedback(
    outcome: &DefaultTerminal,
    windows: usize,
) -> (r: Feedback)
    ensures
        r@ == default_terminal_feedback(*outcome, windows),
{
    match outcome {
        DefaultTerminal::Unavailable => Feedback::LogOnly(
            "Cannot set default terminal because no GUI connection is available".to_owned(),
        ),
        DefaultTerminal::Done => if windows > 0 {
            Feedback::Toast("Kaku is now the default terminal".to_owned())
        } else {
            Feedback::Alert {
                title: "Default Terminal".to_owned(),
                message: "Kaku is now the default terminal".to_owned(),
            }
        },
        DefaultTerminal::Failed(e) => if windows > 0 {
            Feedback::Toast("Failed to set default terminal".to_owned())
        } else {
            Feedback::Alert {
                title: "Default Terminal".to_owned(),
                message: concat2("Failed to set Kaku as default terminal: ", e.as_str()),
            }
        },
    }
}

} // verus!
