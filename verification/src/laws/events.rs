//! Events and startup: what follows a notification, a request from outside, or
//! the options that the program is started with.
use crate::app_events::{
    ApplicationEvent, EventFacts, EventStepView, FrontEndView, MuxFacts, MuxNotification,
    NotificationHandling, PanePlace, PaneTty, PerformView, event_step, opened_script, pane_on_tty,
    performed, routed, tty_matches,
};
use crate::commands::Platform;
use crate::key_assignment::{ActionView, DomainView, SpawnCommandView, plain_command};
use crate::startup::{
    PaneEntry, StartCommand, StartupStep, command_in_domain, may_hand_over, startup_plan, window_of,
};
use crate::text::trimmed;
use crate::updates::{SpawnWhere, quoted_word};
use vstd::prelude::*;
use vstd::string::*;

verus! {

// ---------------------------------------------------------------------------
// Notifications
// ---------------------------------------------------------------------------

/// A notification of a program is shown as the settings say: never, always, or
/// unless the user looks at the pane, tab or window that it comes from. It is
/// shown with its title and its whole text.
pub proof fn notifications_are_shown_as_set(
    pane_id: u64,
    title: Option<String>,
    body: String,
    facts: MuxFacts,
    pane: PanePlace,
    focused: PanePlace,
)
    requires
        facts.pane == Some(pane),
        facts.focused == Some(focused),
    ensures
        ({
            let steps = routed(MuxNotification::Toast { pane_id, title, body }, facts);
            let shown = match facts.handling {
                NotificationHandling::NeverShow => false,
                NotificationHandling::AlwaysShow => true,
                NotificationHandling::SuppressFromFocusedPane => pane.pane != focused.pane,
                NotificationHandling::SuppressFromFocusedTab => pane.tab != focused.tab,
                NotificationHandling::SuppressFromFocusedWindow => pane.window != focused.window,
            };
            &&& !shown ==> steps.len() == 0
            &&& shown ==> steps.len() == 1
            &&& shown ==> (title matches Some(t) ==> steps[0] == (FrontEndView::ShowToast {
                title: t@,
                message: body@,
            }))
            &&& shown && title is None ==> (steps[0] matches FrontEndView::ShowToast { title: t, .. }
                && t == body@)
        }),
{
}

/// The windows are brought in line with the workspace whenever either changes;
/// a window that is gone is forgotten first.
pub proof fn windows_follow_the_workspace(id: u64, facts: MuxFacts)
    ensures
        routed(MuxNotification::WindowCreated(id), facts).contains(FrontEndView::Reconcile),
        routed(MuxNotification::WindowWorkspaceChanged(id), facts).contains(
            FrontEndView::Reconcile,
        ),
        routed(MuxNotification::ActiveWorkspaceChanged, facts).contains(FrontEndView::Reconcile),
        routed(MuxNotification::WindowRemoved(id), facts).contains(FrontEndView::Reconcile),
        routed(MuxNotification::WindowRemoved(id), facts)[0]
            == FrontEndView::ForgetLogicallyClosed(id),
        routed(MuxNotification::PaneFocused(id), facts) == seq![FrontEndView::FocusPane(id)],
{
    assert(routed(MuxNotification::WindowCreated(id), facts)[1] == FrontEndView::Reconcile);
    assert(routed(MuxNotification::WindowWorkspaceChanged(id), facts)[1]
        == FrontEndView::Reconcile);
    assert(routed(MuxNotification::ActiveWorkspaceChanged, facts)[1] == FrontEndView::Reconcile);
    assert(routed(MuxNotification::WindowRemoved(id), facts)[2] == FrontEndView::Reconcile);
}

/// The program quits with its last window only where it is set to, and never on
/// macOS; a download is saved only where programs may ask for one; a renamed
/// workspace is followed where it is the active one; what a program puts on the
/// clipboard gets there whole.
pub proof fn programs_get_what_is_allowed(
    facts: MuxFacts,
    old_workspace: String,
    new_workspace: String,
    selection: crate::app_events::ClipboardSelection,
    text: String,
)
    ensures
        routed(MuxNotification::Empty, facts).contains(FrontEndView::QuitWhenIdle)
            <==> facts.platform == Platform::Other && facts.quit_when_all_windows_are_closed,
        routed(MuxNotification::SaveToDownloads, facts).contains(FrontEndView::SaveDownload)
            <==> facts.allow_download_protocols,
        facts.active_workspace@ == old_workspace@ ==> routed(
            MuxNotification::WorkspaceRenamed { old_workspace, new_workspace },
            facts,
        ) == seq![FrontEndView::SwitchWorkspace(new_workspace@)],
        facts.active_workspace@ != old_workspace@ && facts.active_workspace@ != new_workspace@
            ==> routed(
            MuxNotification::WorkspaceRenamed { old_workspace, new_workspace },
            facts,
        ).len() == 0,
        routed(MuxNotification::AssignClipboard { selection, text: Some(text) }, facts) == seq![
            FrontEndView::SetClipboard { selection, text: text@ },
        ],
{
    let quit = routed(MuxNotification::Empty, facts);
    if quit.len() > 0 {
        assert(quit[0] == FrontEndView::QuitWhenIdle);
    }
    let save = routed(MuxNotification::SaveToDownloads, facts);
    if facts.allow_download_protocols {
        assert(save[0] == FrontEndView::SaveDownload);
    } else {
        assert(save[0] == FrontEndView::RefuseDownload);
    }
}

// ---------------------------------------------------------------------------
// Requests from outside
// ---------------------------------------------------------------------------

/// A script is run by its quoted name and the shell exits behind it; a directory
/// is opened as the place to work in. Only a name that cannot be quoted is
/// refused.
pub proof fn scripts_run_and_directories_open(
    file: Seq<char>,
    prefer_existing: bool,
    windows: Seq<u64>,
)
    ensures
        opened_script(file, true, prefer_existing, windows) matches Some(s) && s.cwd == Some(file)
            && s.input is None,
        file.contains('\0') <==> opened_script(file, false, prefer_existing, windows) is None,
        opened_script(file, false, prefer_existing, windows) matches Some(s) ==> s.cwd is None && (
        s.input matches Some(input) && quoted_word(file).is_prefix_of(input)
            && " ; exit\n"@.is_suffix_of(input) && input.len() == quoted_word(file).len()
            + " ; exit\n"@.len()),
        opened_script(file, true, true, windows) matches Some(s) && (windows.len() > 0 ==> s.window
            == Some(windows.last())),
        opened_script(file, true, false, windows) matches Some(s) && s.window is None,
{
    let input = quoted_word(file) + " ; exit\n"@;
    assert(input.subrange(0, quoted_word(file).len() as int) =~= quoted_word(file));
    assert(input.subrange(input.len() - " ; exit\n"@.len(), input.len() as int) =~= " ; exit\n"@);
}

/// A terminal is known with and without the directory of devices before its
/// name.
pub proof fn terminals_are_known_by_either_name(name: Seq<char>)
    requires
        !"/dev/"@.is_prefix_of(name),
    ensures
        tty_matches(name, name),
        tty_matches("/dev/"@ + name, name),
        tty_matches(name, "/dev/"@ + name),
{
    let full = "/dev/"@ + name;
    assert(full.subrange(0, "/dev/"@.len() as int) =~= "/dev/"@);
    assert(full.skip("/dev/"@.len() as int) =~= name);
}

/// The pane on a terminal is the first that is; there is none exactly where no
/// pane is on it.
pub proof fn panes_are_found_by_terminal(panes: Seq<PaneTty>, name: Seq<char>, i: int)
    ensures
        pane_on_tty(panes, name) is None ==> (0 <= i < panes.len() ==> (panes[i].tty matches Some(
            tty,
        ) ==> !tty_matches(tty@, name))),
        0 <= i < panes.len() && (panes[i].tty matches Some(tty) && tty_matches(tty@, name)) && (
        forall|k: int|
            0 <= k < i ==> ((#[trigger] panes[k]).tty matches Some(tty) ==> !tty_matches(
                tty@,
                name,
            ))) ==> pane_on_tty(panes, name) == Some(panes[i].pane_id),
    decreases panes.len(),
{
    if panes.len() > 0 {
        let rest = panes.drop_first();
        panes_are_found_by_terminal(rest, name, i - 1);
        if 0 < i < panes.len() {
            assert(rest[i - 1] == panes[i]);
            if forall|k: int|
                0 <= k < i ==> ((#[trigger] panes[k]).tty matches Some(tty) ==> !tty_matches(
                    tty@,
                    name,
                )) {
                assert(panes[0].tty matches Some(tty) ==> !tty_matches(tty@, name));
                assert forall|k: int| 0 <= k < i - 1 implies ((#[trigger] rest[k]).tty matches Some(
                    tty,
                ) ==> !tty_matches(tty@, name)) by {
                    assert(rest[k] == panes[k + 1]);
                }
            }
        }
    }
}

/// What is asked for from outside is done only to what is there: a pane that is
/// gone, a tab without panes or an unknown terminal leads to nothing.
pub proof fn only_what_is_there_is_focused(id: u64, facts: EventFacts, name: String)
    ensures
        event_step(ApplicationEvent::ActivatePaneById(id), facts) == (if facts.pane_exists {
            EventStepView::Focus(id)
        } else {
            EventStepView::Nothing
        }),
        facts.tab is None ==> event_step(ApplicationEvent::ActivateTabById(id), facts) is Nothing,
        facts.tab matches Some(tab) ==> (tab.active matches Some(pane) ==> event_step(
            ApplicationEvent::ActivateTabById(id),
            facts,
        ) == EventStepView::Focus(pane)),
        facts.tab matches Some(tab) ==> (tab.active is None && tab.panes@.len() > 0 ==> event_step(
            ApplicationEvent::ActivateTabById(id),
            facts,
        ) == EventStepView::Focus(tab.panes@[0])),
        trimmed(name@).len() == 0 ==> event_step(ApplicationEvent::ActivatePaneForTty(name), facts)
            is Nothing,
{
}

/// Without a window, a new tab or window opens in one; what has its own command
/// keeps it. The program quits where that is asked for, and every other action
/// is handed on.
pub proof fn actions_without_a_window_open_one(domain: DomainView, command: SpawnCommandView)
    ensures
        performed(ActionView::SpawnWindow) == (PerformView::Spawn {
            command: plain_command(DomainView::CurrentPaneDomain),
            place: SpawnWhere::NewWindow,
        }),
        performed(ActionView::SpawnTab(domain)) == (PerformView::Spawn {
            command: plain_command(domain),
            place: SpawnWhere::NewWindow,
        }),
        performed(ActionView::SpawnCommandInNewWindow(command)) == (PerformView::Spawn {
            command,
            place: SpawnWhere::NewWindow,
        }),
        performed(ActionView::SpawnCommandInNewTab(command)) == (PerformView::Spawn {
            command,
            place: SpawnWhere::NewTab,
        }),
        performed(ActionView::QuitApplication) is Quit,
        performed(ActionView::EmitEvent("run-kaku-cli"@)) is RunCli,
        performed(ActionView::EmitEvent("open-kaku-config"@)) is OpenConfig,
        performed(ActionView::EmitEvent("set-default-terminal"@)) is SetDefaultTerminal,
        performed(ActionView::EmitEvent("restart-to-update"@)) is ConfirmUpdate,
        performed(ActionView::EmitEvent("run-kaku-update"@)) is CheckForUpdates,
        performed(ActionView::EmitEvent("update-kaku"@)) is CheckForUpdates,
{
    reveal_strlit("update-kaku");
    reveal_strlit("run-kaku-update");
    reveal_strlit("restart-to-update");
    reveal_strlit("run-kaku-cli");
    reveal_strlit("open-kaku-config");
    reveal_strlit("set-default-terminal");
    assert("update-kaku"@[0] == 'u' && "run-kaku-update"@.len() == 15 && "restart-to-update"@.len()
        == 17 && "run-kaku-cli"@.len() == 12 && "open-kaku-config"@[0] == 'o'
        && "set-default-terminal"@[0] == 's' && "run-kaku-cli"@[0] == 'r' && "run-kaku-update"@[0]
        == 'r' && "restart-to-update"@[0] == 'r');
}

// ---------------------------------------------------------------------------
// Startup
// ---------------------------------------------------------------------------

/// A running instance is handed the work only where it serves the same domain,
/// no other process was asked for, and the configuration is not overridden.
pub proof fn work_is_handed_over_only_alike(
    mux: Seq<char>,
    configured: Option<Seq<char>>,
    always_new: bool,
    overridden: bool,
)
    ensures
        may_hand_over(mux, configured, always_new, overridden) ==> !always_new && !overridden,
        configured matches Some(d) ==> (may_hand_over(mux, configured, always_new, overridden)
            <==> mux == d && !always_new && !overridden),
        configured is None ==> (may_hand_over(mux, configured, always_new, overridden) <==> mux
            == "local"@ && !always_new && !overridden),
{
}

/// The window of a pane is that of its first entry.
pub proof fn windows_are_found_by_pane(entries: Seq<PaneEntry>, pane: u64, i: int)
    ensures
        0 <= i < entries.len() && entries[i].pane_id == pane && (forall|k: int|
            0 <= k < i ==> (#[trigger] entries[k]).pane_id != pane) ==> window_of(entries, pane)
            == Some(entries[i].window_id),
        window_of(entries, pane) is None && 0 <= i < entries.len() ==> entries[i].pane_id != pane,
    decreases entries.len(),
{
    if entries.len() > 0 {
        let rest = entries.drop_first();
        windows_are_found_by_pane(rest, pane, i - 1);
        if 0 < i < entries.len() {
            assert(rest[i - 1] == entries[i]);
            if forall|k: int| 0 <= k < i ==> (#[trigger] entries[k]).pane_id != pane {
                assert(entries[0].pane_id != pane);
                assert forall|k: int| 0 <= k < i - 1 implies (#[trigger] rest[k]).pane_id
                    != pane by {
                    assert(rest[k] == entries[k + 1]);
                }
            }
        }
    }
}

/// A command goes to the domain that was asked for; without one it goes where it
/// says itself.
pub proof fn commands_go_to_the_domain_asked_for(command: SpawnCommandView, name: Seq<char>)
    ensures
        command_in_domain(Some(command), None) == Some(command),
        command_in_domain(None, None) is None,
        command_in_domain(Some(command), Some(name)) matches Some(c) && c.domain
            == DomainView::DomainName(name) && c == (SpawnCommandView {
            domain: DomainView::DomainName(name),
            ..command
        }),
        command_in_domain(None, Some(name)) matches Some(c) && c.domain == DomainView::DomainName(
            name,
        ),
{
}

/// What is done at startup: a first window is always made sure of, and last;
/// listeners are told before anything opens unless this instance only attaches;
/// domains are connected unless that is switched off or not needed.
pub proof fn startup_ends_with_a_window(
    opts: StartCommand,
    local: bool,
    has_program: bool,
    restores: bool,
)
    ensures
        ({
            let plan = startup_plan(opts, local, has_program, restores);
            &&& plan.len() > 0 && plan.last() == StartupStep::SpawnIfEmpty
            &&& plan.contains(StartupStep::EmitStartup) <==> !opts.attach
            &&& plan.contains(StartupStep::OpenInDomain) <==> !opts.attach && opts.domain is Some
            &&& plan.contains(StartupStep::DeferDomains) <==> local
            &&& plan.contains(StartupStep::ConnectDomains) <==> !opts.no_auto_connect && (!local
                || opts.domain is Some)
            &&& plan.no_duplicates()
        }),
{
    let plan = startup_plan(opts, local, has_program, restores);
    let a: int = if local {
        1
    } else {
        0
    };
    let b: int = if !opts.no_auto_connect && !(local && opts.domain is None) {
        1
    } else {
        0
    };
    let c: int = if !opts.attach {
        1
    } else {
        0
    };
    let d: int = if opts.domain is Some && !opts.attach {
        1
    } else {
        0
    };
    let e: int = if !has_program && opts.domain is None && !opts.attach && restores {
        1
    } else {
        0
    };
    assert(plan.len() == a + b + c + d + e + 1);
    if a == 1 {
        assert(plan[0] == StartupStep::DeferDomains);
    }
    if b == 1 {
        assert(plan[a] == StartupStep::ConnectDomains);
    }
    if c == 1 {
        assert(plan[a + b] == StartupStep::EmitStartup);
    }
    if d == 1 {
        assert(plan[a + b + c] == StartupStep::OpenInDomain);
    }
    if e == 1 {
        assert(plan[a + b + c + d] == StartupStep::RestoreSession);
    }
    assert(plan[a + b + c + d + e] == StartupStep::SpawnIfEmpty);
}

} // verus!
