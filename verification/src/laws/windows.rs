//! Windows, workspaces, the program that is run beside the GUI, and updates.
use crate::commands::Platform;
use crate::frontend::{
    KnownWindow, WorkspaceFacts, badge_of, closed_of, first_busy, first_place, matching, reused,
    switched_of, window_showing,
};
use crate::paths::{file_name_of, path_join};
use crate::text::decimal;
use crate::updates::{
    DefaultTerminal, FeedbackView, RestartStage, RestartView, UpdateStep, candidate_paths,
    confirmed_update, default_terminal_feedback, first_existing, has_path, login_shell_args,
    menu_check, next_restart, program_word, same_path, subcommand_line, with_candidate,
    with_opt_candidate,
};
use vstd::prelude::*;
use vstd::string::*;

verus! {

// ---------------------------------------------------------------------------
// Windows
// ---------------------------------------------------------------------------

/// The windows of some pairs.
pub open spec fn windows_of(list: Seq<KnownWindow>) -> Seq<u64> {
    list.map_values(|k: KnownWindow| k.window)
}

/// Every window stays, is given another mux window, or is closed, and only one
/// of these; no other window is touched.
pub proof fn every_window_is_accounted_for(known: Seq<KnownWindow>, wanted: Seq<u64>)
    ensures
        ({
            let m = matching(known, wanted);
            windows_of(m.matched).to_multiset().add(
                windows_of(switched_of(m)).to_multiset(),
            ).add(windows_of(closed_of(m)).to_multiset()) == windows_of(known).to_multiset()
        }),
{
    broadcast use vstd::seq_lib::group_to_multiset_ensures;

    let m = matching(known, wanted);
    lemma_parts(known, wanted);
    let n = reused(m);
    let switched = windows_of(switched_of(m));
    let closed = windows_of(closed_of(m));
    assert(switched + closed =~= windows_of(m.unused));
    vstd::seq_lib::lemma_multiset_commutative(switched, closed);
    assert(windows_of(m.unused).to_multiset() =~= switched.to_multiset().add(
        closed.to_multiset(),
    ));
    assert(windows_of(m.matched).to_multiset().add(switched.to_multiset()).add(
        closed.to_multiset(),
    ) =~= windows_of(m.matched).to_multiset().add(windows_of(m.unused).to_multiset()));
}

proof fn lemma_parts(known: Seq<KnownWindow>, wanted: Seq<u64>)
    ensures
        ({
            let m = matching(known, wanted);
            windows_of(m.matched).to_multiset().add(windows_of(m.unused).to_multiset())
                == windows_of(known).to_multiset()
        }),
    decreases known.len(),
{
    broadcast use vstd::seq_lib::group_to_multiset_ensures;

    let m = matching(known, wanted);
    if known.len() == 0 {
        assert(windows_of(m.matched) =~= seq![]);
        assert(windows_of(m.unused) =~= seq![]);
        assert(windows_of(known) =~= seq![]);
        assert(windows_of(m.matched).to_multiset().add(windows_of(m.unused).to_multiset())
            =~= windows_of(known).to_multiset());
    } else {
        let rest = known.drop_last();
        let k = known.last();
        lemma_parts(rest, wanted);
        let before = matching(rest, wanted);
        assert(windows_of(known) =~= windows_of(rest).push(k.window));
        if first_place(before.rest, k.mux_window) < before.rest.len() {
            assert(windows_of(m.matched) =~= windows_of(before.matched).push(k.window));
        } else {
            assert(windows_of(m.unused) =~= windows_of(before.unused).push(k.window));
        }
        assert(windows_of(m.matched).to_multiset().add(windows_of(m.unused).to_multiset())
            =~= windows_of(known).to_multiset());
    }
}

/// A window that stays goes on showing what it showed, and that is wanted.
pub proof fn windows_that_stay_show_what_they_showed(
    known: Seq<KnownWindow>,
    wanted: Seq<u64>,
    i: int,
)
    requires
        0 <= i < matching(known, wanted).matched.len(),
    ensures
        known.contains(matching(known, wanted).matched[i]),
        wanted.contains(matching(known, wanted).matched[i].mux_window),
    decreases known.len(),
{
    let rest = known.drop_last();
    let before = matching(rest, wanted);
    let k = known.last();
    if i < before.matched.len() {
        windows_that_stay_show_what_they_showed(rest, wanted, i);
        let j = choose|j: int| 0 <= j < rest.len() && rest[j] == before.matched[i];
        assert(known[j] == before.matched[i]);
    } else {
        assert(known[known.len() - 1] == k);
        lemma_place(before.rest, k.mux_window);
        lemma_rest(rest, wanted, first_place(before.rest, k.mux_window));
    }
}

proof fn lemma_place(list: Seq<u64>, id: u64)
    ensures
        0 <= first_place(list, id) <= list.len(),
        first_place(list, id) < list.len() ==> list[first_place(list, id)] == id,
    decreases list.len(),
{
    if list.len() > 0 && list[0] != id {
        lemma_place(list.drop_first(), id);
    }
}

proof fn lemma_rest(known: Seq<KnownWindow>, wanted: Seq<u64>, i: int)
    requires
        0 <= i < matching(known, wanted).rest.len(),
    ensures
        wanted.contains(matching(known, wanted).rest[i]),
    decreases known.len(),
{
    if known.len() > 0 {
        let before = matching(known.drop_last(), wanted);
        let at = first_place(before.rest, known.last().mux_window);
        lemma_place(before.rest, known.last().mux_window);
        if at < before.rest.len() {
            lemma_rest(known.drop_last(), wanted, if i < at {
                i
            } else {
                i + 1
            });
        } else {
            lemma_rest(known.drop_last(), wanted, i);
        }
    }
}

/// The window that shows a mux window is the first that does; there is one
/// exactly where some window does.
pub proof fn windows_are_found_by_what_they_show(list: Seq<KnownWindow>, id: u64, i: int)
    ensures
        match window_showing(list, id) {
            Some(k) => list.contains(k) && k.mux_window == id,
            None => 0 <= i < list.len() ==> list[i].mux_window != id,
        },
    decreases list.len(),
{
    if list.len() > 0 {
        if list[0].mux_window == id {
            assert(list.contains(list[0]));
        } else {
            let rest = list.drop_first();
            windows_are_found_by_what_they_show(rest, id, i - 1);
            if let Some(k) = window_showing(rest, id) {
                let j = choose|j: int| 0 <= j < rest.len() && rest[j] == k;
                assert(list[j + 1] == k);
            } else if 0 < i < list.len() {
                assert(rest[i - 1] == list[i]);
            }
        }
    }
}

/// Where the active workspace is empty, the first that is not takes its place.
pub proof fn the_first_busy_workspace_is_chosen(list: Seq<WorkspaceFacts>, i: int)
    requires
        0 <= i < list.len(),
        !list[i].is_empty,
        forall|k: int| 0 <= k < i ==> (#[trigger] list[k]).is_empty,
    ensures
        first_busy(list) == Some(list[i].name@),
    decreases list.len(),
{
    if i > 0 {
        assert(list[0].is_empty);
        let rest = list.drop_first();
        assert forall|k: int| 0 <= k < i - 1 implies (#[trigger] rest[k]).is_empty by {
            assert(rest[k] == list[k + 1]);
        }
        the_first_busy_workspace_is_chosen(rest, i - 1);
    }
}

/// The badge counts unread bells, where it is wanted and there are any.
pub proof fn the_badge_counts_bells(count: usize)
    ensures
        badge_of(count, false) is None,
        badge_of(0, true) is None,
        count > 0 ==> badge_of(count, true) == Some(decimal(count as nat)),
{
}

// ---------------------------------------------------------------------------
// The program
// ---------------------------------------------------------------------------

proof fn lemma_same_path(p: Seq<char>)
    ensures
        same_path(p, p),
{
}

proof fn lemma_with(list: Seq<Seq<char>>, path: Seq<char>, other: Seq<char>)
    ensures
        has_path(with_candidate(list, path), path),
        has_path(list, other) ==> has_path(with_candidate(list, path), other),
        list.len() > 0 ==> with_candidate(list, path).len() > 0 && with_candidate(list, path)[0]
            == list[0],
        list.len() == 0 ==> with_candidate(list, path) == seq![path],
{
    let after = with_candidate(list, path);
    if !has_path(list, path) {
        assert(after[list.len() as int] == path);
        assert(same_path(after[list.len() as int], path));
    }
    if has_path(list, other) {
        let i = choose|i: int| 0 <= i < list.len() && same_path(#[trigger] list[i], other);
        assert(same_path(after[i], other));
    }
    if list.len() == 0 {
        assert(list.push(path) =~= seq![path]);
    }
}

/// The program is looked for where the environment says, then beside the running
/// one and beside what it links to, then where it is installed for the user and,
/// on macOS, where applications are; the environment comes first.
pub proof fn the_program_is_looked_for(
    env_bin: Option<Seq<char>>,
    exe_dir: Option<Seq<char>>,
    resolved_dir: Option<Seq<char>>,
    home: Seq<char>,
    platform: Platform,
)
    ensures
        ({
            let list = candidate_paths(env_bin, exe_dir, resolved_dir, home, platform);
            &&& env_bin matches Some(p) ==> list.len() > 0 && list[0] == p
            &&& env_bin is None ==> (exe_dir matches Some(dir) ==> list.len() > 0 && list[0]
                == path_join(dir, "kaku"@))
            &&& exe_dir matches Some(dir) ==> has_path(list, path_join(dir, "kaku"@))
            &&& resolved_dir matches Some(dir) ==> has_path(list, path_join(dir, "kaku"@))
            &&& has_path(list, path_join(home, ".config/kaku/zsh/bin/kaku"@))
            &&& platform == Platform::MacOs ==> has_path(
                list,
                "/Applications/Kaku.app/Contents/MacOS/kaku"@,
            ) && has_path(list, path_join(home, "Applications/Kaku.app/Contents/MacOS/kaku"@))
        }),
{
    let zero = Seq::<Seq<char>>::empty();
    let one = with_opt_candidate(zero, env_bin);
    let exe = match exe_dir {
        Some(dir) => path_join(dir, "kaku"@),
        None => seq![],
    };
    let res = match resolved_dir {
        Some(dir) => path_join(dir, "kaku"@),
        None => seq![],
    };
    let env = match env_bin {
        Some(p) => p,
        None => seq![],
    };
    let user = path_join(home, ".config/kaku/zsh/bin/kaku"@);
    let apps = "/Applications/Kaku.app/Contents/MacOS/kaku"@;
    let own = path_join(home, "Applications/Kaku.app/Contents/MacOS/kaku"@);
    lemma_with(zero, env, exe);
    let two = if exe_dir is Some {
        with_candidate(one, exe)
    } else {
        one
    };
    lemma_with(one, exe, exe);
    let three = if resolved_dir is Some {
        with_candidate(two, res)
    } else {
        two
    };
    lemma_with(two, res, exe);
    let four = with_candidate(three, user);
    lemma_with(three, user, exe);
    lemma_with(three, user, res);
    let five = with_candidate(four, apps);
    lemma_with(four, apps, exe);
    lemma_with(four, apps, res);
    lemma_with(four, apps, user);
    let six = with_candidate(five, own);
    lemma_with(five, own, exe);
    lemma_with(five, own, res);
    lemma_with(five, own, user);
    lemma_with(five, own, apps);
}

/// The program is the first candidate that is there.
pub proof fn the_first_program_that_exists_is_taken(
    list: Seq<Seq<char>>,
    exists_at: Seq<bool>,
    n: nat,
    i: int,
)
    requires
        n <= list.len(),
        exists_at.len() == list.len(),
        0 <= i < n,
        exists_at[i],
        forall|k: int| 0 <= k < i ==> !#[trigger] exists_at[k],
    ensures
        first_existing(list, exists_at, n) == Some(list[i]),
    decreases n,
{
    if i < n - 1 {
        the_first_program_that_exists_is_taken(list, exists_at, (n - 1) as nat, i);
    } else {
        lemma_none_exists(list, exists_at, (n - 1) as nat);
    }
}

proof fn lemma_none_exists(list: Seq<Seq<char>>, exists_at: Seq<bool>, n: nat)
    requires
        n <= exists_at.len(),
        forall|k: int| 0 <= k < n ==> !#[trigger] exists_at[k],
    ensures
        first_existing(list, exists_at, n) is None,
    decreases n,
{
    if n > 0 {
        lemma_none_exists(list, exists_at, (n - 1) as nat);
    }
}

/// A subcommand runs in a login shell; only an update that was confirmed runs
/// without asking again.
pub proof fn only_confirmed_updates_run_unasked(
    program: Seq<char>,
    subcommand: Seq<char>,
    auto_confirm: bool,
    shell: Seq<char>,
)
    ensures
        "KAKU_UPDATE_AUTO_CONFIRM=1 "@.is_prefix_of(
            subcommand_line(program, "update"@, true),
        ),
        !(subcommand == "update"@ && auto_confirm) ==> subcommand_line(
            program,
            subcommand,
            auto_confirm,
        ) == program_word(program) + " "@ + subcommand + "; sleep 2"@,
        (" "@ + subcommand + "; sleep 2"@).is_suffix_of(
            subcommand_line(program, subcommand, auto_confirm),
        ),
        ({
            let args = login_shell_args(shell, subcommand);
            &&& args[0] == shell
            &&& args.last() == subcommand
            &&& file_name_of(shell) == Some("fish"@) ==> args.contains("-c"@) && args.contains(
                "-l"@,
            ) && args.contains("-i"@)
            &&& file_name_of(shell) != Some("fish"@) ==> args == seq![shell, "-lic"@, subcommand]
        }),
{
    reveal_strlit("");
    let whole = subcommand_line(program, "update"@, true);
    let mark = "KAKU_UPDATE_AUTO_CONFIRM=1 "@;
    assert(whole.subrange(0, mark.len() as int) =~= mark);
    let line = subcommand_line(program, subcommand, auto_confirm);
    let end = " "@ + subcommand + "; sleep 2"@;
    assert(line.subrange(line.len() - end.len(), line.len() as int) =~= end);
    assert(""@ + program_word(program) =~= program_word(program));
    let args = login_shell_args(shell, subcommand);
    if file_name_of(shell) == Some("fish"@) {
        assert(args[1] == "-l"@ && args[2] == "-i"@ && args[3] == "-c"@);
    }
}

// ---------------------------------------------------------------------------
// Updates
// ---------------------------------------------------------------------------

/// An update that is ready is put to the user where there is a window to ask in;
/// without one that is ready, a check runs where the user sees it.
pub proof fn updates_are_put_to_the_user()
    ensures
        menu_check(true, true) == UpdateStep::ShowConfirmation,
        menu_check(true, false) == UpdateStep::ApplyNow,
        menu_check(false, true) == (UpdateStep::RunInTab { auto_confirm: false }),
        menu_check(false, false) == (UpdateStep::RunInTab { auto_confirm: false }),
        confirmed_update(true) == UpdateStep::ShowConfirmation,
        confirmed_update(false) == UpdateStep::ApplyNow,
{
}

/// How far a restart has come.
pub open spec fn stage_number(s: RestartStage) -> int {
    match s {
        RestartStage::LookForPackage => 0,
        RestartStage::ResolveTarget => 1,
        RestartStage::CreateDirectory => 2,
        RestartStage::WriteScript => 3,
        RestartStage::SpawnHelper => 4,
    }
}

/// A restart goes through its stages in order and ends behind the last; where a
/// stage fails, it falls back and says why. The user is told unless there was
/// nothing to apply, and only a package that was handed to a helper in vain is
/// discarded.
pub proof fn restarts_go_stage_by_stage(stage: RestartStage, error: Seq<char>)
    ensures
        next_restart(stage, None) == RestartView::Finished <==> stage_number(stage) == 4,
        next_restart(stage, None) matches RestartView::Try(next) ==> stage_number(next)
            == stage_number(stage) + 1,
        !(next_restart(stage, None) is FallBack),
        next_restart(stage, Some(error)) matches RestartView::FallBack {
            log,
            toast,
            discard_package,
        } && (stage_number(stage) > 0 ==> error.is_suffix_of(log)) && (toast <==> stage_number(
            stage,
        ) > 0) && (discard_package <==> stage_number(stage) == 4),
{
    let log = next_restart(stage, Some(error))->log;
    if stage_number(stage) > 0 {
        assert(log.subrange(log.len() - error.len(), log.len() as int) =~= error);
    }
}

/// The user is told about the default terminal in a window where there is one,
/// else in a dialog; an error is told with its reason there.
pub proof fn default_terminal_is_answered(error: String, windows: usize)
    ensures
        windows > 0 ==> default_terminal_feedback(DefaultTerminal::Done, windows) is Toast
            && default_terminal_feedback(DefaultTerminal::Failed(error), windows) is Toast,
        default_terminal_feedback(DefaultTerminal::Done, 0) is Alert,
        default_terminal_feedback(DefaultTerminal::Failed(error), 0) matches FeedbackView::Alert {
            title,
            message,
        } && error@.is_suffix_of(message),
        default_terminal_feedback(DefaultTerminal::Unavailable, windows) is LogOnly,
        default_terminal_feedback(DefaultTerminal::Done, windows) != default_terminal_feedback(
            DefaultTerminal::Failed(error),
            windows,
        ),
{
    let front = "Failed to set Kaku as default terminal: "@;
    let message = front + error@;
    assert(message.subrange(message.len() - error@.len(), message.len() as int) =~= error@);
    reveal_strlit("Kaku is now the default terminal");
    reveal_strlit("Failed to set default terminal");
    reveal_strlit("Failed to set Kaku as default terminal: ");
    assert("Kaku is now the default terminal"@[0] != "Failed to set default terminal"@[0]);
    assert(message[0] == 'F');
    assert("Kaku is now the default terminal"@[0] == 'K');
}

} // verus!
