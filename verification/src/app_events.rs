//! What the application does about mux notifications and events from outside.
use crate::commands::Platform;
use crate::key_assignment::{
    ActionView, DomainView, KeyAssignment, SpawnCommand, SpawnCommandView, SpawnTabDomain,
    plain_command,
};
use crate::paths::{file_name, file_name_of};
use crate::text::{concat2, opt_view, same, starts_with, string_of_range, chars_of, trim, trimmed};
use crate::updates::{SpawnWhere, quote_word, quoted_word};
use vstd::prelude::*;
use vstd::string::*;

verus! {

pub const SET_DEFAULT_TERMINAL_EVENT: &'static str = "set-default-terminal";

// ---------------------------------------------------------------------------
// Mux notifications
// ---------------------------------------------------------------------------

/// Which notifications of a terminal program are shown.
#[derive(Clone, Copy, Debug, PartialEq, Eq, Structural)]
pub enum NotificationHandling {
    NeverShow,
    AlwaysShow,
    SuppressFromFocusedPane,
    SuppressFromFocusedTab,
    SuppressFromFocusedWindow,
}

#[derive(Clone, Copy, Debug, PartialEq, Eq, Structural)]
pub enum ClipboardSelection {
    Clipboard,
    PrimarySelection,
}

/// What the mux tells about.
#[derive(Debug)]
pub enum MuxNotification {
    WorkspaceRenamed { old_workspace: String, new_workspace: String },
    WindowWorkspaceChanged(u64),
    ActiveWorkspaceChanged,
    WindowCreated(u64),
    WindowRemoved(u64),
    PaneFocused(u64),
    TabTitleChanged,
    WindowTitleChanged,
    TabResized,
    TabAddedToWindow,
    PaneRemoved,
    WindowInvalidated,
    PaneOutput,
    PaneAdded,
    /// A terminal program wants to show a notification.
    Toast { pane_id: u64, title: Option<String>, body: String },
    /// A bell, a progress report, a change of palette, title or directory.
    OtherAlert,
    /// The last pane is gone.
    Empty,
    SaveToDownloads,
    AssignClipboard { selection: ClipboardSelection, text: Option<String> },
}

/// Where a pane is.
#[derive(Clone, Copy, Debug, PartialEq, Eq, Structural)]
pub struct PanePlace {
    pub window: u64,
    pub tab: u64,
    pub pane: u64,
}

/// What the application knows when a notification comes in.
#[derive(Debug)]
pub struct MuxFacts {
    pub active_workspace: String,
    /// Where the pane of the notification is, if anywhere.
    pub pane: Option<PanePlace>,
    pub focused: Option<PanePlace>,
    pub handling: NotificationHandling,
    pub platform: Platform,
    pub quit_when_all_windows_are_closed: bool,
    pub allow_download_protocols: bool,
}

/// What is to be done.
#[derive(Debug)]
pub enum FrontEndAction {
    /// Switch to a workspace, without reconciling in between.
    SwitchWorkspace(String),
    /// Reconcile the windows, unless a switch is under way.
    Reconcile,
    /// The session is to be saved.
    MarkDirty,
    /// A window is gone for real: drop the note that it was closed.
    ForgetLogicallyClosed(u64),
    FocusPane(u64),
    ShowToast { title: String, message: String },
    /// Quit, unless something is still going on.
    QuitWhenIdle,
    SaveDownload,
    RefuseDownload,
    /// Set the clipboard through the first window.
    SetClipboard { selection: ClipboardSelection, text: String },
}

pub enum FrontEndView {
    SwitchWorkspace(Seq<char>),
    Reconcile,
    MarkDirty,
    ForgetLogicallyClosed(u64),
    FocusPane(u64),
    ShowToast { title: Seq<char>, message: Seq<char> },
    QuitWhenIdle,
    SaveDownload,
    RefuseDownload,
    SetClipboard { selection: ClipboardSelection, text: Seq<char> },
}

impl View for FrontEndAction {
    type V = FrontEndView;

    open spec fn view(&self) -> FrontEndView {
        match *self {
            FrontEndAction::SwitchWorkspace(name) => FrontEndView::SwitchWorkspace(name@),
            FrontEndAction::Reconcile => FrontEndView::Reconcile,
            FrontEndAction::MarkDirty => FrontEndView::MarkDirty,
            FrontEndAction::ForgetLogicallyClosed(id) => FrontEndView::ForgetLogicallyClosed(id),
            FrontEndAction::FocusPane(id) => FrontEndView::FocusPane(id),
            FrontEndAction::ShowToast { title, message } => FrontEndView::ShowToast {
                title: title@,
                message: message@,
            },
            FrontEndAction::QuitWhenIdle => FrontEndView::QuitWhenIdle,
            FrontEndAction::SaveDownload => FrontEndView::SaveDownload,
            FrontEndAction::RefuseDownload => FrontEndView::RefuseDownload,
            FrontEndAction::SetClipboard { selection, text } => FrontEndView::SetClipboard {
                selection,
                text: text@,
            },
        }
    }
}

pub open spec fn action_list(list: Seq<FrontEndAction>) -> Seq<FrontEndView> {
    list.map_values(|a: FrontEndAction| a@)
}

/// Whether a notification of a pane is shown.
pub open spec fn toast_shows(
    handling: NotificationHandling,
    pane: PanePlace,
    focused: PanePlace,
) -> bool {
    match handling {
        NotificationHandling::NeverShow => false,
        NotificationHandling::AlwaysShow => true,
        NotificationHandling::SuppressFromFocusedPane => focused.pane != pane.pane,
        NotificationHandling::SuppressFromFocusedTab => focused.tab != pane.tab,
        NotificationHandling::SuppressFromFocusedWindow => focused.window != pane.window,
    }
}

/// What is shown of a notification: one without a title has its body for one.
pub open spec fn toast_of(title: Option<Seq<char>>, body: Seq<char>) -> FrontEndView {
    match title {
        Some(t) => FrontEndView::ShowToast { title: t, message: body },
        None => FrontEndView::ShowToast { title: body, message: ""@ },
    }
}

/// What is done about a notification.
pub open spec fn routed(n: MuxNotification, facts: MuxFacts) -> Seq<FrontEndView> {
    match n {
        MuxNotification::WorkspaceRenamed { old_workspace, new_workspace } => {
            let active = facts.active_workspace@;
            if active == old_workspace@ || active == new_workspace@ {
                seq![FrontEndView::SwitchWorkspace(new_workspace@)]
            } else {
                seq![]
            }
        },
        MuxNotification::WindowWorkspaceChanged(_) | MuxNotification::ActiveWorkspaceChanged
        | MuxNotification::WindowCreated(_) => {
            seq![FrontEndView::MarkDirty, FrontEndView::Reconcile]
        },
        MuxNotification::WindowRemoved(id) => {
            seq![
                FrontEndView::ForgetLogicallyClosed(id),
                FrontEndView::MarkDirty,
                FrontEndView::Reconcile,
            ]
        },
        MuxNotification::PaneFocused(id) => seq![FrontEndView::FocusPane(id)],
        MuxNotification::TabResized | MuxNotification::TabAddedToWindow
        | MuxNotification::PaneRemoved | MuxNotification::PaneAdded => {
            seq![FrontEndView::MarkDirty]
        },
        MuxNotification::Toast { pane_id, title, body } => {
            match (facts.pane, facts.focused) {
                (Some(pane), Some(focused)) => {
                    if toast_shows(facts.handling, pane, focused) {
                        seq![toast_of(opt_view(title), body@)]
                    } else {
                        seq![]
                    }
                },
                _ => seq![],
            }
        },
        MuxNotification::Empty => {
            if facts.platform != Platform::MacOs && facts.quit_when_all_windows_are_closed {
                seq![FrontEndView::QuitWhenIdle]
            } else {
                seq![]
            }
        },
        MuxNotification::SaveToDownloads => {
            if facts.allow_download_protocols {
                seq![FrontEndView::SaveDownload]
            } else {
                seq![FrontEndView::RefuseDownload]
            }
        },
        MuxNotification::AssignClipboard { selection, text } => {
            seq![
                FrontEndView::SetClipboard {
                    selection,
                    text: match text {
                        Some(t) => t@,
                        None => ""@,
                    },
                },
            ]
        },
        _ => seq![],
    }
}

fn one_action(action: FrontEndAction) -> (r: Vec<FrontEndAction>)
    ensures
        action_list(r@) == seq![action@],
{
    let mut out: Vec<FrontEndAction> = Vec::new();
    out.push(action);
    assert(action_list(out@) =~= seq![action@]);
    out
}

fn add_action(list: &mut Vec<FrontEndAction>, action: FrontEndAction)
    ensures
        action_list(final(list)@) == action_list(old(list)@).push(action@),
{
    list.push(action);
    assert(action_list(list@) =~= action_list(old(list)@).push(action@));
}

fn no_action() -> (r: Vec<FrontEndAction>)
    ensures
        action_list(r@) == Seq::<FrontEndView>::empty(),
{
    let out: Vec<FrontEndAction> = Vec::new();
    assert(action_list(out@) =~= Seq::<FrontEndView>::empty());
    out
}

fn route_toast(title: &Option<String>, body: &str, facts: &MuxFacts) -> (r: Vec<FrontEndAction>)
    ensures
        action_list(r@) == (match (facts.pane, facts.focused) {
            (Some(pane), Some(focused)) => {
                if toast_shows(facts.handling, pane, focused) {
                    seq![toast_of(opt_view(*title), body@)]
                } else {
                    seq![]
                }
            },
            _ => seq![],
        }),
{
    if let (Some(pane), Some(focused)) = (facts.pane, facts.focused) {
        let show = match facts.handling {
            NotificationHandling::NeverShow => false,
            NotificationHandling::AlwaysShow => true,
            NotificationHandling::SuppressFromFocusedPane => focused.pane != pane.pane,
            NotificationHandling::SuppressFromFocusedTab => focused.tab != pane.tab,
            NotificationHandling::SuppressFromFocusedWindow => focused.window != pane.window,
        };
        if show {
            return match title {
                Some(t) => one_action(
                    FrontEndAction::ShowToast { title: t.clone(), message: body.to_owned() },
                ),
                None => one_action(
                    FrontEndAction::ShowToast { title: body.to_owned(), message: "".to_owned() },
                ),
            };
        }
    }
    no_action()
}

/// What is done about a notification.
pub fn route_notification(n: &MuxNotification, facts: &MuxFacts) -> (r: Vec<FrontEndAction>)
    ensures
        action_list(r@) == routed(*n, *facts),
{
    match n {
        MuxNotification::WorkspaceRenamed { old_workspace, new_workspace } => {
            let active = facts.active_workspace.as_str();
            if same(active, old_workspace.as_str()) || same(active, new_workspace.as_str()) {
                one_action(FrontEndAction::SwitchWorkspace(new_workspace.clone()))
            } else {
                no_action()
            }
        },
        MuxNotification::WindowWorkspaceChanged(_) | MuxNotification::ActiveWorkspaceChanged
        | MuxNotification::WindowCreated(_) => {
            let mut out = one_action(FrontEndAction::MarkDirty);
            add_action(&mut out, FrontEndAction::Reconcile);
            assert(action_list(out@) =~= seq![FrontEndView::MarkDirty, FrontEndView::Reconcile]);
            out
        },
        MuxNotification::WindowRemoved(id) => {
            let mut out = one_action(FrontEndAction::ForgetLogicallyClosed(*id));
            add_action(&mut out, FrontEndAction::MarkDirty);
            add_action(&mut out, FrontEndAction::Reconcile);
            assert(action_list(out@) =~= seq![
                FrontEndView::ForgetLogicallyClosed(*id),
                FrontEndView::MarkDirty,
                FrontEndView::Reconcile,
            ]);
            out
        },
        MuxNotification::PaneFocused(id) => one_action(FrontEndAction::FocusPane(*id)),
        MuxNotification::TabResized | MuxNotification::TabAddedToWindow
        | MuxNotification::PaneRemoved | MuxNotification::PaneAdded => one_action(
            FrontEndAction::MarkDirty,
        ),
        MuxNotification::Toast { pane_id: _, title, body } => {
            route_toast(title, body.as_str(), facts)
        },
        MuxNotification::Empty => {
            // Keep the app process alive on macOS when the last window closes, so
            // Dock reopen is instant and consistent.
            if facts.platform != Platform::MacOs && facts.quit_when_all_windows_are_closed {
                one_action(FrontEndAction::QuitWhenIdle)
            } else {
                no_action()
            }
        },
        MuxNotification::SaveToDownloads => {
            if facts.allow_download_protocols {
                one_action(FrontEndAction::SaveDownload)
            } else {
                one_action(FrontEndAction::RefuseDownload)
            }
        },
        MuxNotification::AssignClipboard { selection, text } => {
            let text = match text {
                Some(t) => t.clone(),
                None => "".to_owned(),
            };
            one_action(FrontEndAction::SetClipboard { selection: *selection, text })
        },
        _ => no_action(),
    }
}

/// A pane that the user looks at never announces itself, unless all
/// notifications are wanted.
pub proof fn focused_panes_stay_quiet(handling: NotificationHandling, pane: PanePlace)
    ensures
        toast_shows(handling, pane, pane) == (handling is AlwaysShow),
{
}

/// Whether the configuration is read again once the connection is up: the first
/// reading assumed a light appearance.
pub fn needs_config_reload(appearance_was_queried: bool, is_light: bool) -> (r: bool)
    ensures
        r == (appearance_was_queried && !is_light),
{
    appearance_was_queried && !is_light
}

// ---------------------------------------------------------------------------
// Scripts
// ---------------------------------------------------------------------------

/// How a script or a directory is opened.
#[derive(Debug)]
pub struct OpenScript {
    /// The window to open it in; a new one where there is none.
    pub window: Option<u64>,
    pub cwd: Option<String>,
    /// What is typed into the shell.
    pub input: Option<String>,
}

pub struct OpenScriptView {
    pub window: Option<u64>,
    pub cwd: Option<Seq<char>>,
    pub input: Option<Seq<char>>,
}

pub open spec fn opt_open(o: Option<OpenScript>) -> Option<OpenScriptView> {
    match o {
        Some(s) => Some(
            OpenScriptView { window: s.window, cwd: opt_view(s.cwd), input: opt_view(s.input) },
        ),
        None => None,
    }
}

/// What is typed into the shell to run a script.
pub open spec fn script_input(quoted: Seq<char>) -> Seq<char> {
    quoted + " ; exit\n"@
}

/// How a script or a directory is opened: nothing where no shell can be handed
/// the name.
pub open spec fn opened_script(
    file: Seq<char>,
    is_directory: bool,
    prefer_existing: bool,
    windows: Seq<u64>,
) -> Option<OpenScriptView> {
    if !is_directory && file.contains('\0') {
        None
    } else {
        Some(
            OpenScriptView {
                window: if prefer_existing && windows.len() > 0 {
                    Some(windows.last())
                } else {
                    None
                },
                cwd: if is_directory {
                    Some(file)
                } else {
                    None
                },
                input: if is_directory {
                    None
                } else {
                    Some(script_input(quoted_word(file)))
                },
            },
        )
    }
}

/// The plan for a file, from its quoted name; a directory has none.
pub fn open_quoted(
    file: &str,
    quoted: Option<String>,
    prefer_existing: bool,
    windows: &Vec<u64>,
) -> (r: OpenScript)
    ensures
        opt_open(Some(r)) == Some(
            OpenScriptView {
                window: if prefer_existing && windows@.len() > 0 {
                    Some(windows@.last())
                } else {
                    None
                },
                cwd: if quoted is None {
                    Some(file@)
                } else {
                    None
                },
                input: match quoted {
                    Some(q) => Some(script_input(q@)),
                    None => None,
                },
            },
        ),
{
    let window = if prefer_existing && windows.len() > 0 {
        Some(windows[windows.len() - 1])
    } else {
        None
    };
    match quoted {
        Some(q) => OpenScript {
            window,
            cwd: None,
            input: Some(concat2(q.as_str(), " ; exit\n")),
        },
        None => OpenScript { window, cwd: Some(file.to_owned()), input: None },
    }
}

/// How a script or a directory is opened. We send the script to execute to the
/// shell on stdin, rather than ask the shell to execute it directly, so that we
/// start the shell and read in the user's rc files before running the script.
pub fn spawn_open_command_script(
    file: &str,
    is_directory: bool,
    prefer_existing: bool,
    windows: &Vec<u64>,
) -> (r: Option<OpenScript>)
    ensures
        opt_open(r) == opened_script(file@, is_directory, prefer_existing, windows@),
{
    if is_directory {
        return Some(open_quoted(file, None, prefer_existing, windows));
    }
    match quote_word(file) {
        Some(q) => Some(open_quoted(file, Some(q), prefer_existing, windows)),
        None => None,
    }
}

// ---------------------------------------------------------------------------
// Activating panes
// ---------------------------------------------------------------------------

/// A pane, and the terminal device it is on.
#[derive(Debug)]
pub struct PaneTty {
    pub pane_id: u64,
    pub tty: Option<String>,
}

/// The other way to write the name of a terminal device.
pub open spec fn other_tty_name(name: Seq<char>) -> Seq<char> {
    if "/dev/"@.is_prefix_of(name) {
        name.skip("/dev/"@.len() as int)
    } else {
        "/dev/"@ + name
    }
}

/// Whether a device is the named one.
pub open spec fn tty_matches(tty: Seq<char>, name: Seq<char>) -> bool {
    tty == name || tty == other_tty_name(name) || (file_name_of(name) is Some && file_name_of(tty)
        == file_name_of(name))
}

/// The first pane on the named device.
pub open spec fn pane_on_tty(panes: Seq<PaneTty>, name: Seq<char>) -> Option<u64>
    decreases panes.len(),
{
    if panes.len() == 0 {
        None
    } else if panes[0].tty matches Some(tty) && tty_matches(tty@, name) {
        Some(panes[0].pane_id)
    } else {
        pane_on_tty(panes.drop_first(), name)
    }
}

fn other_name(name: &str) -> (r: String)
    ensures
        r@ == other_tty_name(name@),
{
    if starts_with(name, "/dev/") {
        let cs = chars_of(name);
        proof {
            reveal_strlit("/dev/");
        }
        assert(cs@.subrange(5, cs.len() as int) =~= name@.skip(5));
        string_of_range(&cs, 5, cs.len())
    } else {
        concat2("/dev/", name)
    }
}

/// The pane on the named terminal device, whichever way the name is written.
pub fn activate_tab_for_tty(tty_name: &str, panes: &Vec<PaneTty>) -> (r: Option<u64>)
    ensures
        r == (if trimmed(tty_name@).len() == 0 {
            None
        } else {
            pane_on_tty(panes@, trimmed(tty_name@))
        }),
{
    let name = trim(tty_name);
    if name.as_str().is_empty() {
        return None;
    }
    let other = other_name(name.as_str());
    let base = file_name(name.as_str());
    let mut i: usize = 0;
    assert(panes@.skip(0) =~= panes@);
    while i < panes.len()
        invariant
            i <= panes.len(),
            name@ == trimmed(tty_name@),
            name@.len() > 0,
            other@ == other_tty_name(name@),
            opt_view(base) == file_name_of(name@),
            pane_on_tty(panes@, name@) == pane_on_tty(panes@.skip(i as int), name@),
        decreases panes.len() - i,
    {
        assert(panes@.skip(i as int)[0] == panes@[i as int]);
        assert(panes@.skip(i as int).drop_first() =~= panes@.skip(i + 1));
        if let Some(tty) = &panes[i].tty {
            if same(tty.as_str(), name.as_str()) || same(tty.as_str(), other.as_str()) {
                return Some(panes[i].pane_id);
            }
            if let Some(wanted) = &base {
                if let Some(own) = file_name(tty.as_str()) {
                    if same(own.as_str(), wanted.as_str()) {
                        return Some(panes[i].pane_id);
                    }
                }
            }
        }
        i += 1;
    }
    None
}

/// The pane of a tab that gets the focus: the active one, else the first.
pub fn pane_to_focus(active: Option<u64>, panes: &Vec<u64>) -> (r: Option<u64>)
    ensures
        r == (match active {
            Some(id) => Some(id),
            None => if panes@.len() > 0 {
                Some(panes@[0])
            } else {
                None
            },
        }),
{
    match active {
        Some(id) => Some(id),
        None => if panes.len() > 0 {
            Some(panes[0])
        } else {
            None
        },
    }
}

// ---------------------------------------------------------------------------
// Actions without a window
// ---------------------------------------------------------------------------

/// What is done about an action that no window has received.
#[derive(Debug)]
pub enum PerformStep {
    CheckForUpdates,
    ConfirmUpdate,
    /// Run the bundled program in a new window.
    RunCli,
    OpenConfig,
    SetDefaultTerminal,
    Nothing,
    /// There are no windows that could have received the command, therefore it
    /// must be ok to quit immediately.
    Quit,
    Spawn { command: SpawnCommand, place: SpawnWhere },
    /// Try to hand the action to the first available window.
    Forward,
}

pub enum PerformView {
    CheckForUpdates,
    ConfirmUpdate,
    RunCli,
    OpenConfig,
    SetDefaultTerminal,
    Nothing,
    Quit,
    Spawn { command: SpawnCommandView, place: SpawnWhere },
    Forward,
}

impl View for PerformStep {
    type V = PerformView;

    open spec fn view(&self) -> PerformView {
        match *self {
            PerformStep::CheckForUpdates => PerformView::CheckForUpdates,
            PerformStep::ConfirmUpdate => PerformView::ConfirmUpdate,
            PerformStep::RunCli => PerformView::RunCli,
            PerformStep::OpenConfig => PerformView::OpenConfig,
            PerformStep::SetDefaultTerminal => PerformView::SetDefaultTerminal,
            PerformStep::Nothing => PerformView::Nothing,
            PerformStep::Quit => PerformView::Quit,
            PerformStep::Spawn { command, place } => PerformView::Spawn {
                command: command@,
                place,
            },
            PerformStep::Forward => PerformView::Forward,
        }
    }
}

/// What is done about an event by its name.
pub open spec fn performed_event(event: Seq<char>) -> PerformView {
    if event == "update-kaku"@ || event == "run-kaku-update"@ {
        PerformView::CheckForUpdates
    } else if event == "restart-to-update"@ {
        PerformView::ConfirmUpdate
    } else if event == "run-kaku-cli"@ {
        PerformView::RunCli
    } else if event == "open-kaku-config"@ {
        PerformView::OpenConfig
    } else if event == "set-default-terminal"@ {
        PerformView::SetDefaultTerminal
    } else {
        PerformView::Forward
    }
}

/// What is done about an action that no window has received.
pub open spec fn performed(action: ActionView) -> PerformView {
    match action {
        ActionView::EmitEvent(event) => performed_event(event),
        ActionView::ReloadConfiguration => PerformView::Nothing,
        ActionView::QuitApplication => PerformView::Quit,
        ActionView::SpawnWindow => PerformView::Spawn {
            command: plain_command(DomainView::CurrentPaneDomain),
            place: SpawnWhere::NewWindow,
        },
        ActionView::SpawnTab(domain) => PerformView::Spawn {
            command: plain_command(domain),
            place: SpawnWhere::NewWindow,
        },
        ActionView::SpawnCommandInNewTab(command) => PerformView::Spawn {
            command,
            place: SpawnWhere::NewTab,
        },
        ActionView::SpawnCommandInNewWindow(command) => PerformView::Spawn {
            command,
            place: SpawnWhere::NewWindow,
        },
        _ => PerformView::Forward,
    }
}

fn perform_event(event: &str) -> (r: PerformStep)
    ensures
        r@ == performed_event(event@),
{
    if same(event, "update-kaku") || same(event, "run-kaku-update") {
        PerformStep::CheckForUpdates
    } else if same(event, "restart-to-update") {
        PerformStep::ConfirmUpdate
    } else if same(event, "run-kaku-cli") {
        PerformStep::RunCli
    } else if same(event, "open-kaku-config") {
        PerformStep::OpenConfig
    } else if same(event, SET_DEFAULT_TERMINAL_EVENT) {
        PerformStep::SetDefaultTerminal
    } else {
        PerformStep::Forward
    }
}

/// What is done about an action that no window has received: one picked from
/// the menubar while no window is open.
pub fn perform_without_window(action: &KeyAssignment) -> (r: PerformStep)
    ensures
        r@ == performed(action@),
{
    match action {
        KeyAssignment::EmitEvent(event) => perform_event(event.as_str()),
        KeyAssignment::ReloadConfiguration => PerformStep::Nothing,
        KeyAssignment::QuitApplication => PerformStep::Quit,
        KeyAssignment::SpawnWindow => PerformStep::Spawn {
            command: SpawnCommand::in_domain(SpawnTabDomain::CurrentPaneDomain),
            place: SpawnWhere::NewWindow,
        },
        KeyAssignment::SpawnTab(domain) => PerformStep::Spawn {
            command: SpawnCommand::in_domain(domain.duplicate()),
            place: SpawnWhere::NewWindow,
        },
        KeyAssignment::SpawnCommandInNewTab(command) => PerformStep::Spawn {
            command: command.duplicate(),
            place: SpawnWhere::NewTab,
        },
        KeyAssignment::SpawnCommandInNewWindow(command) => PerformStep::Spawn {
            command: command.duplicate(),
            place: SpawnWhere::NewWindow,
        },
        _ => PerformStep::Forward,
    }
}

// ---------------------------------------------------------------------------
// Events from outside
// ---------------------------------------------------------------------------

/// What the system asks of the application.
#[derive(Debug)]
pub enum ApplicationEvent {
    OpenCommandScript(String),
    OpenCommandScriptInTab(String),
    ActivatePaneForTty(String),
    ActivatePaneById(u64),
    ActivateTabById(u64),
    PerformKeyAssignment(KeyAssignment),
}

/// The panes of a tab.
#[derive(Debug)]
pub struct TabPanes {
    pub active: Option<u64>,
    pub panes: Vec<u64>,
}

/// What the application knows when an event comes in.
#[derive(Debug)]
pub struct EventFacts {
    /// Whether the file of the event is a directory.
    pub is_directory: bool,
    /// The windows of the active workspace.
    pub windows: Vec<u64>,
    pub ttys: Vec<PaneTty>,
    /// Whether the pane of the event exists.
    pub pane_exists: bool,
    /// The tab of the event, where it exists.
    pub tab: Option<TabPanes>,
}

/// What is done about an event.
#[derive(Debug)]
pub enum EventStep {
    Nothing,
    Open(OpenScript),
    /// Focus a pane, with its tab and its window.
    Focus(u64),
    Perform(PerformStep),
}

pub enum EventStepView {
    Nothing,
    Open(OpenScriptView),
    Focus(u64),
    Perform(PerformView),
}

impl View for EventStep {
    type V = EventStepView;

    open spec fn view(&self) -> EventStepView {
        match *self {
            EventStep::Nothing => EventStepView::Nothing,
            EventStep::Open(s) => EventStepView::Open(
                OpenScriptView {
                    window: s.window,
                    cwd: opt_view(s.cwd),
                    input: opt_view(s.input),
                },
            ),
            EventStep::Focus(pane) => EventStepView::Focus(pane),
            EventStep::Perform(step) => EventStepView::Perform(step@),
        }
    }
}

pub open spec fn opened_or_nothing(o: Option<OpenScriptView>) -> EventStepView {
    match o {
        Some(s) => EventStepView::Open(s),
        None => EventStepView::Nothing,
    }
}

pub open spec fn focused_or_nothing(o: Option<u64>) -> EventStepView {
    match o {
        Some(pane) => EventStepView::Focus(pane),
        None => EventStepView::Nothing,
    }
}

/// The pane of a tab that gets the focus, if it has any.
pub open spec fn focus_in_tab(tab: TabPanes) -> Option<u64> {
    match tab.active {
        Some(id) => Some(id),
        None => if tab.panes@.len() > 0 {
            Some(tab.panes@[0])
        } else {
            None
        },
    }
}

/// What is done about an event.
pub open spec fn event_step(event: ApplicationEvent, facts: EventFacts) -> EventStepView {
    match event {
        ApplicationEvent::OpenCommandScript(file) => opened_or_nothing(
            opened_script(file@, facts.is_directory, false, facts.windows@),
        ),
        ApplicationEvent::OpenCommandScriptInTab(file) => opened_or_nothing(
            opened_script(file@, facts.is_directory, true, facts.windows@),
        ),
        ApplicationEvent::ActivatePaneForTty(name) => focused_or_nothing(
            if trimmed(name@).len() == 0 {
                None
            } else {
                pane_on_tty(facts.ttys@, trimmed(name@))
            },
        ),
        ApplicationEvent::ActivatePaneById(pane) => if facts.pane_exists {
            EventStepView::Focus(pane)
        } else {
            EventStepView::Nothing
        },
        ApplicationEvent::ActivateTabById(_) => match facts.tab {
            Some(tab) => focused_or_nothing(focus_in_tab(tab)),
            None => EventStepView::Nothing,
        },
        ApplicationEvent::PerformKeyAssignment(action) => EventStepView::Perform(
            performed(action@),
        ),
    }
}

fn open_or_nothing(o: Option<OpenScript>) -> (r: EventStep)
    ensures
        r@ == opened_or_nothing(opt_open(o)),
{
    match o {
        Some(s) => EventStep::Open(s),
        None => EventStep::Nothing,
    }
}

fn focus_or_nothing(o: Option<u64>) -> (r: EventStep)
    ensures
        r@ == focused_or_nothing(o),
{
    match o {
        Some(pane) => EventStep::Focus(pane),
        None => EventStep::Nothing,
    }
}

/// What is done about an event.
pub fn app_event_handler(event: &ApplicationEvent, facts: &EventFacts) -> (r: EventStep)
    ensures
        r@ == event_step(*event, *facts),
{
    match event {
        ApplicationEvent::OpenCommandScript(file) => open_or_nothing(
            spawn_open_command_script(file.as_str(), facts.is_directory, false, &facts.windows),
        ),
        ApplicationEvent::OpenCommandScriptInTab(file) => open_or_nothing(
            spawn_open_command_script(file.as_str(), facts.is_directory, true, &facts.windows),
        ),
        ApplicationEvent::ActivatePaneForTty(name) => focus_or_nothing(
            activate_tab_for_tty(name.as_str(), &facts.ttys),
        ),
        ApplicationEvent::ActivatePaneById(pane) => if facts.pane_exists {
            EventStep::Focus(*pane)
        } else {
            EventStep::Nothing
        },
        ApplicationEvent::ActivateTabById(_) => match &facts.tab {
            Some(tab) => focus_or_nothing(pane_to_focus(tab.active, &tab.panes)),
            None => EventStep::Nothing,
        },
        ApplicationEvent::PerformKeyAssignment(action) => EventStep::Perform(
            perform_without_window(action),
        ),
    }
}

/// No event restarts into an update by itself: those that concern updates lead
/// to the check or to the confirmation.
pub proof fn update_events_lead_to_a_question(event: Seq<char>)
    requires
        event == "update-kaku"@ || event == "run-kaku-update"@ || event == "restart-to-update"@,
    ensures
        performed(ActionView::EmitEvent(event)) is CheckForUpdates || performed(
            ActionView::EmitEvent(event),
        ) is ConfirmUpdate,
{
}

} // verus!
