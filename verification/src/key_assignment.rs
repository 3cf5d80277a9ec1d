//! The actions that keys, palette entries and menu items can trigger.
use crate::text::{
    clone_opt, clone_strings, opt_view, same, same_opt, same_strings, views,
};
use vstd::prelude::*;

verus! {

#[derive(Clone, Copy, Debug, PartialEq, Eq, Structural)]
pub enum ClipboardPasteSource {
    Clipboard,
    PrimarySelection,
}

#[derive(Clone, Copy, Debug, PartialEq, Eq, Structural)]
pub enum ClipboardCopyDestination {
    Clipboard,
    PrimarySelection,
    ClipboardAndPrimarySelection,
}

#[derive(Clone, Copy, Debug, PartialEq, Eq, Structural)]
pub enum WindowLevel {
    AlwaysOnBottom,
    Normal,
    AlwaysOnTop,
}

#[derive(Clone, Copy, Debug, PartialEq, Eq, Structural)]
pub enum ScrollbackEraseMode {
    ScrollbackOnly,
    ScrollbackAndViewport,
}

#[derive(Clone, Copy, Debug, PartialEq, Eq, Structural)]
pub enum PaneSelectMode {
    Activate,
    SwapWithActive,
    SwapWithActiveKeepFocus,
    MoveToNewTab,
    MoveToNewWindow,
}

#[derive(Clone, Copy, Debug, PartialEq, Eq, Structural)]
pub enum PaneDirection {
    Up,
    Down,
    Left,
    Right,
    Next,
    Prev,
}

#[derive(Clone, Copy, Debug, PartialEq, Eq, Structural)]
pub enum RotationDirection {
    Clockwise,
    CounterClockwise,
}

/// What a search starts from.
#[derive(Debug, PartialEq, Eq)]
pub enum Pattern {
    CurrentSelectionOrEmptyString,
    /// Any other pattern, as it prints.
    Explicit(String),
}

pub enum PatternView {
    CurrentSelectionOrEmptyString,
    Explicit(Seq<char>),
}

impl View for Pattern {
    type V = PatternView;

    open spec fn view(&self) -> PatternView {
        match *self {
            Pattern::CurrentSelectionOrEmptyString => PatternView::CurrentSelectionOrEmptyString,
            Pattern::Explicit(text) => PatternView::Explicit(text@),
        }
    }
}

impl Pattern {
    pub fn duplicate(&self) -> (r: Pattern)
        ensures
            r@ == self@,
    {
        match self {
            Pattern::CurrentSelectionOrEmptyString => Pattern::CurrentSelectionOrEmptyString,
            Pattern::Explicit(text) => Pattern::Explicit(text.clone()),
        }
    }

    pub fn same_as(&self, other: &Pattern) -> (r: bool)
        ensures
            r == (self@ == other@),
    {
        match (self, other) {
            (Pattern::CurrentSelectionOrEmptyString, Pattern::CurrentSelectionOrEmptyString) => {
                true
            },
            (Pattern::Explicit(x), Pattern::Explicit(y)) => same(x.as_str(), y.as_str()),
            _ => false,
        }
    }
}

/// How far a page scroll goes: one page either way, or another amount with the
/// numeral of its magnitude.
#[derive(Debug, PartialEq, Eq)]
pub enum PageAmount {
    OneUp,
    OneDown,
    Up(String),
    Down(String),
}

pub enum PageAmountView {
    OneUp,
    OneDown,
    Up(Seq<char>),
    Down(Seq<char>),
}

impl View for PageAmount {
    type V = PageAmountView;

    open spec fn view(&self) -> PageAmountView {
        match *self {
            PageAmount::OneUp => PageAmountView::OneUp,
            PageAmount::OneDown => PageAmountView::OneDown,
            PageAmount::Up(t) => PageAmountView::Up(t@),
            PageAmount::Down(t) => PageAmountView::Down(t@),
        }
    }
}

impl PageAmount {
    pub fn duplicate(&self) -> (r: PageAmount)
        ensures
            r@ == self@,
    {
        match self {
            PageAmount::OneUp => PageAmount::OneUp,
            PageAmount::OneDown => PageAmount::OneDown,
            PageAmount::Up(t) => PageAmount::Up(t.clone()),
            PageAmount::Down(t) => PageAmount::Down(t.clone()),
        }
    }

    pub fn same_as(&self, other: &PageAmount) -> (r: bool)
        ensures
            r == (self@ == other@),
    {
        match (self, other) {
            (PageAmount::OneUp, PageAmount::OneUp) => true,
            (PageAmount::OneDown, PageAmount::OneDown) => true,
            (PageAmount::Up(x), PageAmount::Up(y)) => same(x.as_str(), y.as_str()),
            (PageAmount::Down(x), PageAmount::Down(y)) => same(x.as_str(), y.as_str()),
            _ => false,
        }
    }
}

/// Where a new tab is spawned.
#[derive(Debug, PartialEq, Eq)]
pub enum SpawnTabDomain {
    DefaultDomain,
    CurrentPaneDomain,
    DomainName(String),
    DomainId(usize),
}

pub enum DomainView {
    DefaultDomain,
    CurrentPaneDomain,
    DomainName(Seq<char>),
    DomainId(usize),
}

impl View for SpawnTabDomain {
    type V = DomainView;

    open spec fn view(&self) -> DomainView {
        match *self {
            SpawnTabDomain::DefaultDomain => DomainView::DefaultDomain,
            SpawnTabDomain::CurrentPaneDomain => DomainView::CurrentPaneDomain,
            SpawnTabDomain::DomainName(name) => DomainView::DomainName(name@),
            SpawnTabDomain::DomainId(id) => DomainView::DomainId(id),
        }
    }
}

impl SpawnTabDomain {
    pub fn duplicate(&self) -> (r: SpawnTabDomain)
        ensures
            r@ == self@,
    {
        match self {
            SpawnTabDomain::DefaultDomain => SpawnTabDomain::DefaultDomain,
            SpawnTabDomain::CurrentPaneDomain => SpawnTabDomain::CurrentPaneDomain,
            SpawnTabDomain::DomainName(name) => SpawnTabDomain::DomainName(name.clone()),
            SpawnTabDomain::DomainId(id) => SpawnTabDomain::DomainId(*id),
        }
    }

    pub fn same_as(&self, other: &SpawnTabDomain) -> (r: bool)
        ensures
            r == (self@ == other@),
    {
        match (self, other) {
            (SpawnTabDomain::DefaultDomain, SpawnTabDomain::DefaultDomain) => true,
            (SpawnTabDomain::CurrentPaneDomain, SpawnTabDomain::CurrentPaneDomain) => true,
            (SpawnTabDomain::DomainName(x), SpawnTabDomain::DomainName(y)) => {
                same(x.as_str(), y.as_str())
            },
            (SpawnTabDomain::DomainId(x), SpawnTabDomain::DomainId(y)) => *x == *y,
            _ => false,
        }
    }
}

/// A program to spawn.
#[derive(Debug, PartialEq, Eq)]
pub struct SpawnCommand {
    /// The label that the launch menu shows.
    pub label: Option<String>,
    pub args: Option<Vec<String>>,
    pub domain: SpawnTabDomain,
    /// The label that the palette shows, where the command has one.
    pub palette_label: Option<String>,
    /// How the whole command prints.
    pub summary: String,
}

pub struct SpawnCommandView {
    pub label: Option<Seq<char>>,
    pub args: Option<Seq<Seq<char>>>,
    pub domain: DomainView,
    pub palette_label: Option<Seq<char>>,
    pub summary: Seq<char>,
}

pub open spec fn opt_args_view(args: Option<Vec<String>>) -> Option<Seq<Seq<char>>> {
    match args {
        Some(list) => Some(views(list@)),
        None => None,
    }
}

impl View for SpawnCommand {
    type V = SpawnCommandView;

    open spec fn view(&self) -> SpawnCommandView {
        SpawnCommandView {
            label: opt_view(self.label),
            args: opt_args_view(self.args),
            domain: self.domain@,
            palette_label: opt_view(self.palette_label),
            summary: self.summary@,
        }
    }
}

/// The command that spawns the default program in `domain`.
pub open spec fn plain_command(domain: DomainView) -> SpawnCommandView {
    SpawnCommandView {
        label: None,
        args: None,
        domain,
        palette_label: None,
        summary: seq![],
    }
}

impl SpawnCommand {
    /// The command that spawns the default program in `domain`.
    pub fn in_domain(domain: SpawnTabDomain) -> (r: SpawnCommand)
        ensures
            r@ == plain_command(domain@),
    {
        SpawnCommand {
            label: None,
            args: None,
            domain,
            palette_label: None,
            summary: String::new(),
        }
    }

    pub fn duplicate(&self) -> (r: SpawnCommand)
        ensures
            r@ == self@,
    {
        let args = match &self.args {
            Some(list) => Some(clone_strings(list)),
            None => None,
        };
        SpawnCommand {
            label: clone_opt(&self.label),
            args,
            domain: self.domain.duplicate(),
            palette_label: clone_opt(&self.palette_label),
            summary: self.summary.clone(),
        }
    }

    pub fn same_as(&self, other: &SpawnCommand) -> (r: bool)
        ensures
            r == (self@ == other@),
    {
        let args = match (&self.args, &other.args) {
            (Some(x), Some(y)) => same_strings(x, y),
            (None, None) => true,
            _ => false,
        };
        args && same_opt(&self.label, &other.label) && self.domain.same_as(&other.domain)
            && same_opt(&self.palette_label, &other.palette_label) && same(
            self.summary.as_str(),
            other.summary.as_str(),
        )
    }

    /// What the palette calls the command, where it has a name of its own.
    pub fn label_for_palette(&self) -> (r: Option<String>)
        ensures
            opt_view(r) == self@.palette_label,
    {
        clone_opt(&self.palette_label)
    }
}

impl Default for SpawnCommand {
    fn default() -> (r: Self)
        ensures
            r@ == plain_command(DomainView::CurrentPaneDomain),
    {
        SpawnCommand::in_domain(SpawnTabDomain::CurrentPaneDomain)
    }
}

pub open spec fn opt_command_view(c: Option<SpawnCommand>) -> Option<SpawnCommandView> {
    match c {
        Some(command) => Some(command@),
        None => None,
    }
}

fn duplicate_opt_command(c: &Option<SpawnCommand>) -> (r: Option<SpawnCommand>)
    ensures
        opt_command_view(r) == opt_command_view(*c),
{
    match c {
        Some(command) => Some(command.duplicate()),
        None => None,
    }
}

fn same_opt_command(a: &Option<SpawnCommand>, b: &Option<SpawnCommand>) -> (r: bool)
    ensures
        r == (opt_command_view(*a) == opt_command_view(*b)),
{
    match (a, b) {
        (Some(x), Some(y)) => x.same_as(y),
        (None, None) => true,
        _ => false,
    }
}

/// A split of the current pane.
#[derive(Debug, PartialEq, Eq)]
pub struct SplitPane {
    pub direction: PaneDirection,
    pub command: SpawnCommand,
    /// The remaining settings, as they print.
    pub settings: String,
}

pub struct SplitPaneView {
    pub direction: PaneDirection,
    pub command: SpawnCommandView,
    pub settings: Seq<char>,
}

impl View for SplitPane {
    type V = SplitPaneView;

    open spec fn view(&self) -> SplitPaneView {
        SplitPaneView {
            direction: self.direction,
            command: self.command@,
            settings: self.settings@,
        }
    }
}

impl SplitPane {
    pub fn duplicate(&self) -> (r: SplitPane)
        ensures
            r@ == self@,
    {
        SplitPane {
            direction: self.direction,
            command: self.command.duplicate(),
            settings: self.settings.clone(),
        }
    }

    pub fn same_as(&self, other: &SplitPane) -> (r: bool)
        ensures
            r == (self@ == other@),
    {
        self.direction == other.direction && self.command.same_as(&other.command) && same(
            self.settings.as_str(),
            other.settings.as_str(),
        )
    }
}

/// How a pane is picked.
#[derive(Debug, PartialEq, Eq)]
pub struct PaneSelectArguments {
    pub alphabet: String,
    pub mode: PaneSelectMode,
    pub show_pane_ids: bool,
}

pub struct PaneSelectView {
    pub alphabet: Seq<char>,
    pub mode: PaneSelectMode,
    pub show_pane_ids: bool,
}

impl View for PaneSelectArguments {
    type V = PaneSelectView;

    open spec fn view(&self) -> PaneSelectView {
        PaneSelectView {
            alphabet: self.alphabet@,
            mode: self.mode,
            show_pane_ids: self.show_pane_ids,
        }
    }
}

impl PaneSelectArguments {
    pub fn duplicate(&self) -> (r: PaneSelectArguments)
        ensures
            r@ == self@,
    {
        PaneSelectArguments {
            alphabet: self.alphabet.clone(),
            mode: self.mode,
            show_pane_ids: self.show_pane_ids,
        }
    }

    pub fn same_as(&self, other: &PaneSelectArguments) -> (r: bool)
        ensures
            r == (self@ == other@),
    {
        self.mode == other.mode && self.show_pane_ids == other.show_pane_ids && same(
            self.alphabet.as_str(),
            other.alphabet.as_str(),
        )
    }
}

/// An action that a key, a palette entry or a menu item triggers.
#[derive(Debug, PartialEq, Eq)]
#[allow(inconsistent_fields)]
pub enum KeyAssignment {
    PasteFrom(ClipboardPasteSource),
    CopyTextTo { text: String, destination: ClipboardCopyDestination },
    CopyTo(ClipboardCopyDestination),
    ToggleFullScreen,
    CenterWindow,
    MaximizeWindow,
    ToggleAlwaysOnTop,
    ToggleAlwaysOnBottom,
    SetWindowLevel(WindowLevel),
    Hide,
    Show,
    HideApplication,
    SpawnWindow,
    ClearScrollback(ScrollbackEraseMode),
    Search(Pattern),
    ShowDebugOverlay,
    /// The selector arguments, as they print.
    InputSelector(String),
    /// The confirmation arguments, as they print.
    Confirmation(String),
    /// The prompt arguments, as they print.
    PromptInputLine(String),
    QuickSelect,
    /// The arguments, as they print.
    QuickSelectArgs(String),
    /// The arguments, as they print.
    CharSelect(String),
    PaneSelect(PaneSelectArguments),
    DecreaseFontSize,
    IncreaseFontSize,
    ResetFontSize,
    ResetFontAndWindowSize,
    SpawnTab(SpawnTabDomain),
    SpawnCommandInNewTab(SpawnCommand),
    SpawnCommandInNewWindow(SpawnCommand),
    ActivateTab(isize),
    ActivatePaneByIndex(usize),
    SetPaneZoomState(bool),
    /// The name of the encoding.
    SetPaneEncoding(String),
    EmitEvent(String),
    CloseCurrentTab { confirm: bool },
    CloseCurrentPane { confirm: bool },
    ReopenLastClosedTab,
    RestorePreviousWindow,
    ActivateWindow(usize),
    ActivateWindowRelative(isize),
    ActivateWindowRelativeNoWrap(isize),
    ActivateTabRelative(isize),
    ActivateTabRelativeNoWrap(isize),
    ReloadConfiguration,
    QuitApplication,
    MoveTabToNewWindow,
    MoveTabRelative(isize),
    MoveTab(usize),
    ScrollByPage(PageAmount),
    ScrollByLine(isize),
    ScrollToPrompt(isize),
    ScrollByCurrentEventWheelDelta,
    ScrollToBottom,
    ScrollToTop,
    ActivateCopyMode,
    SplitVertical(SpawnCommand),
    SplitHorizontal(SpawnCommand),
    AdjustPaneSize(PaneDirection, usize),
    ActivatePaneDirection(PaneDirection),
    TogglePaneZoomState,
    ActivateLastTab,
    ClearKeyTableStack,
    OpenLinkAtMouseCursor,
    /// The launcher arguments, as they print.
    ShowLauncherArgs(String),
    ShowLauncher,
    ShowTabNavigator,
    DetachDomain(SpawnTabDomain),
    OpenUri(String),
    SendString(String),
    SendStringIfNotAltScreen(String),
    /// The key, as it prints.
    SendKey(String),
    Nop,
    DisableDefaultAssignment,
    ToggleCurrentTabPanesInputBroadcast,
    ToggleAllPanesInputBroadcast,
    /// The selection mode, as it prints.
    SelectTextAtMouseCursor(String),
    /// The selection mode, as it prints.
    ExtendSelectionToMouseCursor(String),
    ClearSelection,
    CompleteSelection(ClipboardCopyDestination),
    CompleteSelectionOrOpenLinkAtMouseCursor(ClipboardCopyDestination),
    StartWindowDrag,
    Multiple(Vec<KeyAssignment>),
    SwitchToWorkspace { name: Option<String>, spawn: Option<SpawnCommand> },
    SwitchWorkspaceRelative(isize),
    ActivateKeyTable { name: String, options: String },
    PopKeyTable,
    AttachDomain(String),
    /// The copy mode action, as it prints.
    CopyMode(String),
    RotatePanes(RotationDirection),
    TogglePaneSplitDirection,
    SplitPane(SplitPane),
    ResetTerminal,
    ActivateCommandPalette,
}

/// The model of an action.
#[allow(inconsistent_fields)]
pub enum ActionView {
    PasteFrom(ClipboardPasteSource),
    CopyTextTo { text: Seq<char>, destination: ClipboardCopyDestination },
    CopyTo(ClipboardCopyDestination),
    ToggleFullScreen,
    CenterWindow,
    MaximizeWindow,
    ToggleAlwaysOnTop,
    ToggleAlwaysOnBottom,
    SetWindowLevel(WindowLevel),
    Hide,
    Show,
    HideApplication,
    SpawnWindow,
    ClearScrollback(ScrollbackEraseMode),
    Search(PatternView),
    ShowDebugOverlay,
    InputSelector(Seq<char>),
    Confirmation(Seq<char>),
    PromptInputLine(Seq<char>),
    QuickSelect,
    QuickSelectArgs(Seq<char>),
    CharSelect(Seq<char>),
    PaneSelect(PaneSelectView),
    DecreaseFontSize,
    IncreaseFontSize,
    ResetFontSize,
    ResetFontAndWindowSize,
    SpawnTab(DomainView),
    SpawnCommandInNewTab(SpawnCommandView),
    SpawnCommandInNewWindow(SpawnCommandView),
    ActivateTab(isize),
    ActivatePaneByIndex(usize),
    SetPaneZoomState(bool),
    SetPaneEncoding(Seq<char>),
    EmitEvent(Seq<char>),
    CloseCurrentTab { confirm: bool },
    CloseCurrentPane { confirm: bool },
    ReopenLastClosedTab,
    RestorePreviousWindow,
    ActivateWindow(usize),
    ActivateWindowRelative(isize),
    ActivateWindowRelativeNoWrap(isize),
    ActivateTabRelative(isize),
    ActivateTabRelativeNoWrap(isize),
    ReloadConfiguration,
    QuitApplication,
    MoveTabToNewWindow,
    MoveTabRelative(isize),
    MoveTab(usize),
    ScrollByPage(PageAmountView),
    ScrollByLine(isize),
    ScrollToPrompt(isize),
    ScrollByCurrentEventWheelDelta,
    ScrollToBottom,
    ScrollToTop,
    ActivateCopyMode,
    SplitVertical(SpawnCommandView),
    SplitHorizontal(SpawnCommandView),
    AdjustPaneSize(PaneDirection, usize),
    ActivatePaneDirection(PaneDirection),
    TogglePaneZoomState,
    ActivateLastTab,
    ClearKeyTableStack,
    OpenLinkAtMouseCursor,
    ShowLauncherArgs(Seq<char>),
    ShowLauncher,
    ShowTabNavigator,
    DetachDomain(DomainView),
    OpenUri(Seq<char>),
    SendString(Seq<char>),
    SendStringIfNotAltScreen(Seq<char>),
    SendKey(Seq<char>),
    Nop,
    DisableDefaultAssignment,
    ToggleCurrentTabPanesInputBroadcast,
    ToggleAllPanesInputBroadcast,
    SelectTextAtMouseCursor(Seq<char>),
    ExtendSelectionToMouseCursor(Seq<char>),
    ClearSelection,
    CompleteSelection(ClipboardCopyDestination),
    CompleteSelectionOrOpenLinkAtMouseCursor(ClipboardCopyDestination),
    StartWindowDrag,
    Multiple(Seq<ActionView>),
    SwitchToWorkspace { name: Option<Seq<char>>, spawn: Option<SpawnCommandView> },
    SwitchWorkspaceRelative(isize),
    ActivateKeyTable { name: Seq<char>, options: Seq<char> },
    PopKeyTable,
    AttachDomain(Seq<char>),
    CopyMode(Seq<char>),
    RotatePanes(RotationDirection),
    TogglePaneSplitDirection,
    SplitPane(SplitPaneView),
    ResetTerminal,
    ActivateCommandPalette,
}

/// The models of a list of actions.
pub open spec fn action_views(actions: Seq<KeyAssignment>) -> Seq<ActionView>
    decreases actions,
{
    Seq::new(
        actions.len(),
        |i: int|
            if 0 <= i < actions.len() {
                action_view(actions[i])
            } else {
                arbitrary()
            },
    )
}

pub open spec fn action_view(action: KeyAssignment) -> ActionView
    decreases action,
{
    match action {
        KeyAssignment::PasteFrom(a) => ActionView::PasteFrom(a),
        KeyAssignment::CopyTextTo { text, destination } => ActionView::CopyTextTo {
            text: text@,
            destination: destination,
        },
        KeyAssignment::CopyTo(a) => ActionView::CopyTo(a),
        KeyAssignment::ToggleFullScreen => ActionView::ToggleFullScreen,
        KeyAssignment::CenterWindow => ActionView::CenterWindow,
        KeyAssignment::MaximizeWindow => ActionView::MaximizeWindow,
        KeyAssignment::ToggleAlwaysOnTop => ActionView::ToggleAlwaysOnTop,
        KeyAssignment::ToggleAlwaysOnBottom => ActionView::ToggleAlwaysOnBottom,
        KeyAssignment::SetWindowLevel(a) => ActionView::SetWindowLevel(a),
        KeyAssignment::Hide => ActionView::Hide,
        KeyAssignment::Show => ActionView::Show,
        KeyAssignment::HideApplication => ActionView::HideApplication,
        KeyAssignment::SpawnWindow => ActionView::SpawnWindow,
        KeyAssignment::ClearScrollback(a) => ActionView::ClearScrollback(a),
        KeyAssignment::Search(a) => ActionView::Search(a@),
        KeyAssignment::ShowDebugOverlay => ActionView::ShowDebugOverlay,
        KeyAssignment::InputSelector(a) => ActionView::InputSelector(a@),
        KeyAssignment::Confirmation(a) => ActionView::Confirmation(a@),
        KeyAssignment::PromptInputLine(a) => ActionView::PromptInputLine(a@),
        KeyAssignment::QuickSelect => ActionView::QuickSelect,
        KeyAssignment::QuickSelectArgs(a) => ActionView::QuickSelectArgs(a@),
        KeyAssignment::CharSelect(a) => ActionView::CharSelect(a@),
        KeyAssignment::PaneSelect(a) => ActionView::PaneSelect(a@),
        KeyAssignment::DecreaseFontSize => ActionView::DecreaseFontSize,
        KeyAssignment::IncreaseFontSize => ActionView::IncreaseFontSize,
        KeyAssignment::ResetFontSize => ActionView::ResetFontSize,
        KeyAssignment::ResetFontAndWindowSize => ActionView::ResetFontAndWindowSize,
        KeyAssignment::SpawnTab(a) => ActionView::SpawnTab(a@),
        KeyAssignment::SpawnCommandInNewTab(a) => ActionView::SpawnCommandInNewTab(a@),
        KeyAssignment::SpawnCommandInNewWindow(a) => ActionView::SpawnCommandInNewWindow(a@),
        KeyAssignment::ActivateTab(a) => ActionView::ActivateTab(a),
        KeyAssignment::ActivatePaneByIndex(a) => ActionView::ActivatePaneByIndex(a),
        KeyAssignment::SetPaneZoomState(a) => ActionView::SetPaneZoomState(a),
        KeyAssignment::SetPaneEncoding(a) => ActionView::SetPaneEncoding(a@),
        KeyAssignment::EmitEvent(a) => ActionView::EmitEvent(a@),
        KeyAssignment::CloseCurrentTab { confirm } => ActionView::CloseCurrentTab {
            confirm: confirm,
        },
        KeyAssignment::CloseCurrentPane { confirm } => ActionView::CloseCurrentPane {
            confirm: confirm,
        },
        KeyAssignment::ReopenLastClosedTab => ActionView::ReopenLastClosedTab,
        KeyAssignment::RestorePreviousWindow => ActionView::RestorePreviousWindow,
        KeyAssignment::ActivateWindow(a) => ActionView::ActivateWindow(a),
        KeyAssignment::ActivateWindowRelative(a) => ActionView::ActivateWindowRelative(a),
        KeyAssignment::ActivateWindowRelativeNoWrap(a) => ActionView::ActivateWindowRelativeNoWrap(
            a,
        ),
        KeyAssignment::ActivateTabRelative(a) => ActionView::ActivateTabRelative(a),
        KeyAssignment::ActivateTabRelativeNoWrap(a) => ActionView::ActivateTabRelativeNoWrap(a),
        KeyAssignment::ReloadConfiguration => ActionView::ReloadConfiguration,
        KeyAssignment::QuitApplication => ActionView::QuitApplication,
        KeyAssignment::MoveTabToNewWindow => ActionView::MoveTabToNewWindow,
        KeyAssignment::MoveTabRelative(a) => ActionView::MoveTabRelative(a),
        KeyAssignment::MoveTab(a) => ActionView::MoveTab(a),
        KeyAssignment::ScrollByPage(a) => ActionView::ScrollByPage(a@),
        KeyAssignment::ScrollByLine(a) => ActionView::ScrollByLine(a),
        KeyAssignment::ScrollToPrompt(a) => ActionView::ScrollToPrompt(a),
        KeyAssignment::ScrollByCurrentEventWheelDelta => ActionView::ScrollByCurrentEventWheelDelta,
        KeyAssignment::ScrollToBottom => ActionView::ScrollToBottom,
        KeyAssignment::ScrollToTop => ActionView::ScrollToTop,
        KeyAssignment::ActivateCopyMode => ActionView::ActivateCopyMode,
        KeyAssignment::SplitVertical(a) => ActionView::SplitVertical(a@),
        KeyAssignment::SplitHorizontal(a) => ActionView::SplitHorizontal(a@),
        KeyAssignment::AdjustPaneSize(a, n) => ActionView::AdjustPaneSize(a, n),
        KeyAssignment::ActivatePaneDirection(a) => ActionView::ActivatePaneDirection(a),
        KeyAssignment::TogglePaneZoomState => ActionView::TogglePaneZoomState,
        KeyAssignment::ActivateLastTab => ActionView::ActivateLastTab,
        KeyAssignment::ClearKeyTableStack => ActionView::ClearKeyTableStack,
        KeyAssignment::OpenLinkAtMouseCursor => ActionView::OpenLinkAtMouseCursor,
        KeyAssignment::ShowLauncherArgs(a) => ActionView::ShowLauncherArgs(a@),
        KeyAssignment::ShowLauncher => ActionView::ShowLauncher,
        KeyAssignment::ShowTabNavigator => ActionView::ShowTabNavigator,
        KeyAssignment::DetachDomain(a) => ActionView::DetachDomain(a@),
        KeyAssignment::OpenUri(a) => ActionView::OpenUri(a@),
        KeyAssignment::SendString(a) => ActionView::SendString(a@),
        KeyAssignment::SendStringIfNotAltScreen(a) => ActionView::SendStringIfNotAltScreen(a@),
        KeyAssignment::SendKey(a) => ActionView::SendKey(a@),
        KeyAssignment::Nop => ActionView::Nop,
        KeyAssignment::DisableDefaultAssignment => ActionView::DisableDefaultAssignment,
        KeyAssignment::ToggleCurrentTabPanesInputBroadcast => {
            ActionView::ToggleCurrentTabPanesInputBroadcast
        },
        KeyAssignment::ToggleAllPanesInputBroadcast => ActionView::ToggleAllPanesInputBroadcast,
        KeyAssignment::SelectTextAtMouseCursor(a) => ActionView::SelectTextAtMouseCursor(a@),
        KeyAssignment::ExtendSelectionToMouseCursor(a) => ActionView::ExtendSelectionToMouseCursor(
            a@,
        ),
        KeyAssignment::ClearSelection => ActionView::ClearSelection,
        KeyAssignment::CompleteSelection(a) => ActionView::CompleteSelection(a),
        KeyAssignment::CompleteSelectionOrOpenLinkAtMouseCursor(a) => {
            ActionView::CompleteSelectionOrOpenLinkAtMouseCursor(a)
        },
        KeyAssignment::StartWindowDrag => ActionView::StartWindowDrag,
        KeyAssignment::Multiple(a) => ActionView::Multiple(action_views(a@)),
        KeyAssignment::SwitchToWorkspace { name, spawn } => ActionView::SwitchToWorkspace {
            name: opt_view(name),
            spawn: opt_command_view(spawn),
        },
        KeyAssignment::SwitchWorkspaceRelative(a) => ActionView::SwitchWorkspaceRelative(a),
        KeyAssignment::ActivateKeyTable { name, options } => ActionView::ActivateKeyTable {
            name: name@,
            options: options@,
        },
        KeyAssignment::PopKeyTable => ActionView::PopKeyTable,
        KeyAssignment::AttachDomain(a) => ActionView::AttachDomain(a@),
        KeyAssignment::CopyMode(a) => ActionView::CopyMode(a@),
        KeyAssignment::RotatePanes(a) => ActionView::RotatePanes(a),
        KeyAssignment::TogglePaneSplitDirection => ActionView::TogglePaneSplitDirection,
        KeyAssignment::SplitPane(a) => ActionView::SplitPane(a@),
        KeyAssignment::ResetTerminal => ActionView::ResetTerminal,
        KeyAssignment::ActivateCommandPalette => ActionView::ActivateCommandPalette,
    }
}

impl View for KeyAssignment {
    type V = ActionView;

    open spec fn view(&self) -> ActionView {
        action_view(*self)
    }
}

fn duplicate_actions(parts: &Vec<KeyAssignment>) -> (r: Vec<KeyAssignment>)
    ensures
        action_views(r@) == action_views(parts@),
    decreases parts,
{
    let mut out: Vec<KeyAssignment> = Vec::new();
    let mut i: usize = 0;
    while i < parts.len()
        invariant
            i <= parts.len(),
            out.len() == i,
            forall|k: int| 0 <= k < i ==> #[trigger] out@[k]@ == parts@[k]@,
        decreases parts.len() - i,
    {
        out.push(parts[i].duplicate());
        i += 1;
    }
    assert(action_views(out@) =~= action_views(parts@)) by {
        assert forall|k: int| 0 <= k < out@.len() implies action_views(out@)[k]
            == #[trigger] action_views(parts@)[k] by {
            assert(out@[k]@ == parts@[k]@);
        }
    }
    out
}

fn same_actions(x: &Vec<KeyAssignment>, y: &Vec<KeyAssignment>) -> (r: bool)
    ensures
        r == (action_views(x@) == action_views(y@)),
    decreases x, 2nat,
{
    if x.len() != y.len() {
        assert(action_views(x@).len() != action_views(y@).len());
        return false;
    }
    let mut i: usize = 0;
    while i < x.len()
        invariant
            i <= x.len(),
            x.len() == y.len(),
            forall|k: int| 0 <= k < i ==> #[trigger] action_views(x@)[k] == action_views(y@)[k],
        decreases x.len() - i,
    {
        assert(action_views(x@)[i as int] == x@[i as int]@);
        assert(action_views(y@)[i as int] == y@[i as int]@);
        if !x[i].same_as(&y[i]) {
            return false;
        }
        i += 1;
    }
    assert(action_views(x@) =~= action_views(y@));
    true
}

impl KeyAssignment {
    /// A copy of the action.
    pub fn duplicate(&self) -> (r: KeyAssignment)
        ensures
            r@ == self@,
        decreases self,
    {
        match self {
            KeyAssignment::PasteFrom(a) => KeyAssignment::PasteFrom(*a),
            KeyAssignment::CopyTextTo { text, destination } => KeyAssignment::CopyTextTo {
                text: text.clone(),
                destination: *destination,
            },
            KeyAssignment::CopyTo(a) => KeyAssignment::CopyTo(*a),
            KeyAssignment::ToggleFullScreen => KeyAssignment::ToggleFullScreen,
            KeyAssignment::CenterWindow => KeyAssignment::CenterWindow,
            KeyAssignment::MaximizeWindow => KeyAssignment::MaximizeWindow,
            KeyAssignment::ToggleAlwaysOnTop => KeyAssignment::ToggleAlwaysOnTop,
            KeyAssignment::ToggleAlwaysOnBottom => KeyAssignment::ToggleAlwaysOnBottom,
            KeyAssignment::SetWindowLevel(a) => KeyAssignment::SetWindowLevel(*a),
            KeyAssignment::Hide => KeyAssignment::Hide,
            KeyAssignment::Show => KeyAssignment::Show,
            KeyAssignment::HideApplication => KeyAssignment::HideApplication,
            KeyAssignment::SpawnWindow => KeyAssignment::SpawnWindow,
            KeyAssignment::ClearScrollback(a) => KeyAssignment::ClearScrollback(*a),
            KeyAssignment::Search(a) => KeyAssignment::Search(a.duplicate()),
            KeyAssignment::ShowDebugOverlay => KeyAssignment::ShowDebugOverlay,
            KeyAssignment::InputSelector(a) => KeyAssignment::InputSelector(a.clone()),
            KeyAssignment::Confirmation(a) => KeyAssignment::Confirmation(a.clone()),
            KeyAssignment::PromptInputLine(a) => KeyAssignment::PromptInputLine(a.clone()),
            KeyAssignment::QuickSelect => KeyAssignment::QuickSelect,
            KeyAssignment::QuickSelectArgs(a) => KeyAssignment::QuickSelectArgs(a.clone()),
            KeyAssignment::CharSelect(a) => KeyAssignment::CharSelect(a.clone()),
            KeyAssignment::PaneSelect(a) => KeyAssignment::PaneSelect(a.duplicate()),
            KeyAssignment::DecreaseFontSize => KeyAssignment::DecreaseFontSize,
            KeyAssignment::IncreaseFontSize => KeyAssignment::IncreaseFontSize,
            KeyAssignment::ResetFontSize => KeyAssignment::ResetFontSize,
            KeyAssignment::ResetFontAndWindowSize => KeyAssignment::ResetFontAndWindowSize,
            KeyAssignment::SpawnTab(a) => KeyAssignment::SpawnTab(a.duplicate()),
            KeyAssignment::SpawnCommandInNewTab(a) => KeyAssignment::SpawnCommandInNewTab(
                a.duplicate(),
            ),
            KeyAssignment::SpawnCommandInNewWindow(a) => KeyAssignment::SpawnCommandInNewWindow(
                a.duplicate(),
            ),
            KeyAssignment::ActivateTab(a) => KeyAssignment::ActivateTab(*a),
            KeyAssignment::ActivatePaneByIndex(a) => KeyAssignment::ActivatePaneByIndex(*a),
            KeyAssignment::SetPaneZoomState(a) => KeyAssignment::SetPaneZoomState(*a),
            KeyAssignment::SetPaneEncoding(a) => KeyAssignment::SetPaneEncoding(a.clone()),
            KeyAssignment::EmitEvent(a) => KeyAssignment::EmitEvent(a.clone()),
            KeyAssignment::CloseCurrentTab { confirm } => KeyAssignment::CloseCurrentTab {
                confirm: *confirm,
            },
            KeyAssignment::CloseCurrentPane { confirm } => KeyAssignment::CloseCurrentPane {
                confirm: *confirm,
            },
            KeyAssignment::ReopenLastClosedTab => KeyAssignment::ReopenLastClosedTab,
            KeyAssignment::RestorePreviousWindow => KeyAssignment::RestorePreviousWindow,
            KeyAssignment::ActivateWindow(a) => KeyAssignment::ActivateWindow(*a),
            KeyAssignment::ActivateWindowRelative(a) => KeyAssignment::ActivateWindowRelative(*a),
            KeyAssignment::ActivateWindowRelativeNoWrap(a) => {
                KeyAssignment::ActivateWindowRelativeNoWrap(*a)
            },
            KeyAssignment::ActivateTabRelative(a) => KeyAssignment::ActivateTabRelative(*a),
            KeyAssignment::ActivateTabRelativeNoWrap(a) => KeyAssignment::ActivateTabRelativeNoWrap(
                *a,
            ),
            KeyAssignment::ReloadConfiguration => KeyAssignment::ReloadConfiguration,
            KeyAssignment::QuitApplication => KeyAssignment::QuitApplication,
            KeyAssignment::MoveTabToNewWindow => KeyAssignment::MoveTabToNewWindow,
            KeyAssignment::MoveTabRelative(a) => KeyAssignment::MoveTabRelative(*a),
            KeyAssignment::MoveTab(a) => KeyAssignment::MoveTab(*a),
            KeyAssignment::ScrollByPage(a) => KeyAssignment::ScrollByPage(a.duplicate()),
            KeyAssignment::ScrollByLine(a) => KeyAssignment::ScrollByLine(*a),
            KeyAssignment::ScrollToPrompt(a) => KeyAssignment::ScrollToPrompt(*a),
            KeyAssignment::ScrollByCurrentEventWheelDelta => {
                KeyAssignment::ScrollByCurrentEventWheelDelta
            },
            KeyAssignment::ScrollToBottom => KeyAssignment::ScrollToBottom,
            KeyAssignment::ScrollToTop => KeyAssignment::ScrollToTop,
            KeyAssignment::ActivateCopyMode => KeyAssignment::ActivateCopyMode,
            KeyAssignment::SplitVertical(a) => KeyAssignment::SplitVertical(a.duplicate()),
            KeyAssignment::SplitHorizontal(a) => KeyAssignment::SplitHorizontal(a.duplicate()),
            KeyAssignment::AdjustPaneSize(a, n) => KeyAssignment::AdjustPaneSize(*a, *n),
            KeyAssignment::ActivatePaneDirection(a) => KeyAssignment::ActivatePaneDirection(*a),
            KeyAssignment::TogglePaneZoomState => KeyAssignment::TogglePaneZoomState,
            KeyAssignment::ActivateLastTab => KeyAssignment::ActivateLastTab,
            KeyAssignment::ClearKeyTableStack => KeyAssignment::ClearKeyTableStack,
            KeyAssignment::OpenLinkAtMouseCursor => KeyAssignment::OpenLinkAtMouseCursor,
            KeyAssignment::ShowLauncherArgs(a) => KeyAssignment::ShowLauncherArgs(a.clone()),
            KeyAssignment::ShowLauncher => KeyAssignment::ShowLauncher,
            KeyAssignment::ShowTabNavigator => KeyAssignment::ShowTabNavigator,
            KeyAssignment::DetachDomain(a) => KeyAssignment::DetachDomain(a.duplicate()),
            KeyAssignment::OpenUri(a) => KeyAssignment::OpenUri(a.clone()),
            KeyAssignment::SendString(a) => KeyAssignment::SendString(a.clone()),
            KeyAssignment::SendStringIfNotAltScreen(a) => KeyAssignment::SendStringIfNotAltScreen(
                a.clone(),
            ),
            KeyAssignment::SendKey(a) => KeyAssignment::SendKey(a.clone()),
            KeyAssignment::Nop => KeyAssignment::Nop,
            KeyAssignment::DisableDefaultAssignment => KeyAssignment::DisableDefaultAssignment,
            KeyAssignment::ToggleCurrentTabPanesInputBroadcast => {
                KeyAssignment::ToggleCurrentTabPanesInputBroadcast
            },
            KeyAssignment::ToggleAllPanesInputBroadcast => {
                KeyAssignment::ToggleAllPanesInputBroadcast
            },
            KeyAssignment::SelectTextAtMouseCursor(a) => KeyAssignment::SelectTextAtMouseCursor(
                a.clone(),
            ),
            KeyAssignment::ExtendSelectionToMouseCursor(a) => {
                KeyAssignment::ExtendSelectionToMouseCursor(a.clone())
            },
            KeyAssignment::ClearSelection => KeyAssignment::ClearSelection,
            KeyAssignment::CompleteSelection(a) => KeyAssignment::CompleteSelection(*a),
            KeyAssignment::CompleteSelectionOrOpenLinkAtMouseCursor(a) => {
                KeyAssignment::CompleteSelectionOrOpenLinkAtMouseCursor(*a)
            },
            KeyAssignment::StartWindowDrag => KeyAssignment::StartWindowDrag,
            KeyAssignment::Multiple(parts) => KeyAssignment::Multiple(duplicate_actions(parts)),
            KeyAssignment::SwitchToWorkspace { name, spawn } => KeyAssignment::SwitchToWorkspace {
                name: clone_opt(name),
                spawn: duplicate_opt_command(spawn),
            },
            KeyAssignment::SwitchWorkspaceRelative(a) => KeyAssignment::SwitchWorkspaceRelative(*a),
            KeyAssignment::ActivateKeyTable { name, options } => KeyAssignment::ActivateKeyTable {
                name: name.clone(),
                options: options.clone(),
            },
            KeyAssignment::PopKeyTable => KeyAssignment::PopKeyTable,
            KeyAssignment::AttachDomain(a) => KeyAssignment::AttachDomain(a.clone()),
            KeyAssignment::CopyMode(a) => KeyAssignment::CopyMode(a.clone()),
            KeyAssignment::RotatePanes(a) => KeyAssignment::RotatePanes(*a),
            KeyAssignment::TogglePaneSplitDirection => KeyAssignment::TogglePaneSplitDirection,
            KeyAssignment::SplitPane(a) => KeyAssignment::SplitPane(a.duplicate()),
            KeyAssignment::ResetTerminal => KeyAssignment::ResetTerminal,
            KeyAssignment::ActivateCommandPalette => KeyAssignment::ActivateCommandPalette,
        }
    }

    /// Equality of an action that belongs to the clipboard or the window with any other.
    fn same_clipboard_or_window(&self, other: &KeyAssignment) -> (r: bool)
        requires
            matches!(
                self,
                KeyAssignment::PasteFrom(..) | KeyAssignment::CopyTextTo { .. }
                    | KeyAssignment::CopyTo(..) | KeyAssignment::ToggleFullScreen
                    | KeyAssignment::CenterWindow | KeyAssignment::MaximizeWindow
                    | KeyAssignment::ToggleAlwaysOnTop | KeyAssignment::ToggleAlwaysOnBottom,
            ),
        ensures
            r == (self@ == other@),
        decreases self, 0nat,
    {
        match self {
            KeyAssignment::PasteFrom(x0) => {
                match other {
                    KeyAssignment::PasteFrom(y0) => *x0 == *y0,
                    _ => false,
                }
            },
            KeyAssignment::CopyTextTo { text: x0, destination: x1 } => {
                match other {
                    KeyAssignment::CopyTextTo { text: y0, destination: y1 } => same(
                        x0.as_str(),
                        y0.as_str(),
                    ) && *x1 == *y1,
                    _ => false,
                }
            },
            KeyAssignment::CopyTo(x0) => {
                match other {
                    KeyAssignment::CopyTo(y0) => *x0 == *y0,
                    _ => false,
                }
            },
            KeyAssignment::ToggleFullScreen => matches!(other, KeyAssignment::ToggleFullScreen),
            KeyAssignment::CenterWindow => matches!(other, KeyAssignment::CenterWindow),
            KeyAssignment::MaximizeWindow => matches!(other, KeyAssignment::MaximizeWindow),
            KeyAssignment::ToggleAlwaysOnTop => matches!(other, KeyAssignment::ToggleAlwaysOnTop),
            KeyAssignment::ToggleAlwaysOnBottom => matches!(
                other,
                KeyAssignment::ToggleAlwaysOnBottom,
            ),
            _ => false,
        }
    }

    /// Equality of an action that belongs to windows or searching with any other.
    fn same_window_or_search(&self, other: &KeyAssignment) -> (r: bool)
        requires
            matches!(
                self,
                KeyAssignment::SetWindowLevel(..) | KeyAssignment::Hide | KeyAssignment::Show
                    | KeyAssignment::HideApplication | KeyAssignment::SpawnWindow
                    | KeyAssignment::ClearScrollback(..) | KeyAssignment::Search(..)
                    | KeyAssignment::ShowDebugOverlay,
            ),
        ensures
            r == (self@ == other@),
        decreases self, 0nat,
    {
        match self {
            KeyAssignment::SetWindowLevel(x0) => {
                match other {
                    KeyAssignment::SetWindowLevel(y0) => *x0 == *y0,
                    _ => false,
                }
            },
            KeyAssignment::Hide => matches!(other, KeyAssignment::Hide),
            KeyAssignment::Show => matches!(other, KeyAssignment::Show),
            KeyAssignment::HideApplication => matches!(other, KeyAssignment::HideApplication),
            KeyAssignment::SpawnWindow => matches!(other, KeyAssignment::SpawnWindow),
            KeyAssignment::ClearScrollback(x0) => {
                match other {
                    KeyAssignment::ClearScrollback(y0) => *x0 == *y0,
                    _ => false,
                }
            },
            KeyAssignment::Search(x0) => {
                match other {
                    KeyAssignment::Search(y0) => x0.same_as(y0),
                    _ => false,
                }
            },
            KeyAssignment::ShowDebugOverlay => matches!(other, KeyAssignment::ShowDebugOverlay),
            _ => false,
        }
    }

    /// Equality of an action that belongs to prompts or selecting with any other.
    fn same_prompt_or_select(&self, other: &KeyAssignment) -> (r: bool)
        requires
            matches!(
                self,
                KeyAssignment::InputSelector(..) | KeyAssignment::Confirmation(..)
                    | KeyAssignment::PromptInputLine(..) | KeyAssignment::QuickSelect
                    | KeyAssignment::QuickSelectArgs(..) | KeyAssignment::CharSelect(..)
                    | KeyAssignment::PaneSelect(..) | KeyAssignment::DecreaseFontSize,
            ),
        ensures
            r == (self@ == other@),
        decreases self, 0nat,
    {
        match self {
            KeyAssignment::InputSelector(x0) => {
                match other {
                    KeyAssignment::InputSelector(y0) => same(x0.as_str(), y0.as_str()),
                    _ => false,
                }
            },
            KeyAssignment::Confirmation(x0) => {
                match other {
                    KeyAssignment::Confirmation(y0) => same(x0.as_str(), y0.as_str()),
                    _ => false,
                }
            },
            KeyAssignment::PromptInputLine(x0) => {
                match other {
                    KeyAssignment::PromptInputLine(y0) => same(x0.as_str(), y0.as_str()),
                    _ => false,
                }
            },
            KeyAssignment::QuickSelect => matches!(other, KeyAssignment::QuickSelect),
            KeyAssignment::QuickSelectArgs(x0) => {
                match other {
                    KeyAssignment::QuickSelectArgs(y0) => same(x0.as_str(), y0.as_str()),
                    _ => false,
                }
            },
            KeyAssignment::CharSelect(x0) => {
                match other {
                    KeyAssignment::CharSelect(y0) => same(x0.as_str(), y0.as_str()),
                    _ => false,
                }
            },
            KeyAssignment::PaneSelect(x0) => {
                match other {
                    KeyAssignment::PaneSelect(y0) => x0.same_as(y0),
                    _ => false,
                }
            },
            KeyAssignment::DecreaseFontSize => matches!(other, KeyAssignment::DecreaseFontSize),
            _ => false,
        }
    }

    /// Equality of an action that belongs to fonts or spawning with any other.
    fn same_font_or_spawn(&self, other: &KeyAssignment) -> (r: bool)
        requires
            matches!(
                self,
                KeyAssignment::IncreaseFontSize | KeyAssignment::ResetFontSize
                    | KeyAssignment::ResetFontAndWindowSize | KeyAssignment::SpawnTab(..)
                    | KeyAssignment::SpawnCommandInNewTab(..)
                    | KeyAssignment::SpawnCommandInNewWindow(..) | KeyAssignment::ActivateTab(..)
                    | KeyAssignment::ActivatePaneByIndex(..),
            ),
        ensures
            r == (self@ == other@),
        decreases self, 0nat,
    {
        match self {
            KeyAssignment::IncreaseFontSize => matches!(other, KeyAssignment::IncreaseFontSize),
            KeyAssignment::ResetFontSize => matches!(other, KeyAssignment::ResetFontSize),
            KeyAssignment::ResetFontAndWindowSize => matches!(
                other,
                KeyAssignment::ResetFontAndWindowSize,
            ),
            KeyAssignment::SpawnTab(x0) => {
                match other {
                    KeyAssignment::SpawnTab(y0) => x0.same_as(y0),
                    _ => false,
                }
            },
            KeyAssignment::SpawnCommandInNewTab(x0) => {
                match other {
                    KeyAssignment::SpawnCommandInNewTab(y0) => x0.same_as(y0),
                    _ => false,
                }
            },
            KeyAssignment::SpawnCommandInNewWindow(x0) => {
                match other {
                    KeyAssignment::SpawnCommandInNewWindow(y0) => x0.same_as(y0),
                    _ => false,
                }
            },
            KeyAssignment::ActivateTab(x0) => {
                match other {
                    KeyAssignment::ActivateTab(y0) => *x0 == *y0,
                    _ => false,
                }
            },
            KeyAssignment::ActivatePaneByIndex(x0) => {
                match other {
                    KeyAssignment::ActivatePaneByIndex(y0) => *x0 == *y0,
                    _ => false,
                }
            },
            _ => false,
        }
    }

    /// Equality of an action that belongs to panes or closing with any other.
    fn same_pane_or_close(&self, other: &KeyAssignment) -> (r: bool)
        requires
            matches!(
                self,
                KeyAssignment::SetPaneZoomState(..) | KeyAssignment::SetPaneEncoding(..)
                    | KeyAssignment::EmitEvent(..) | KeyAssignment::CloseCurrentTab { .. }
                    | KeyAssignment::CloseCurrentPane { .. } | KeyAssignment::ReopenLastClosedTab
                    | KeyAssignment::RestorePreviousWindow | KeyAssignment::ActivateWindow(..),
            ),
        ensures
            r == (self@ == other@),
        decreases self, 0nat,
    {
        match self {
            KeyAssignment::SetPaneZoomState(x0) => {
                match other {
                    KeyAssignment::SetPaneZoomState(y0) => *x0 == *y0,
                    _ => false,
                }
            },
            KeyAssignment::SetPaneEncoding(x0) => {
                match other {
                    KeyAssignment::SetPaneEncoding(y0) => same(x0.as_str(), y0.as_str()),
                    _ => false,
                }
            },
            KeyAssignment::EmitEvent(x0) => {
                match other {
                    KeyAssignment::EmitEvent(y0) => same(x0.as_str(), y0.as_str()),
                    _ => false,
                }
            },
            KeyAssignment::CloseCurrentTab { confirm: x0 } => {
                match other {
                    KeyAssignment::CloseCurrentTab { confirm: y0 } => *x0 == *y0,
                    _ => false,
                }
            },
            KeyAssignment::CloseCurrentPane { confirm: x0 } => {
                match other {
                    KeyAssignment::CloseCurrentPane { confirm: y0 } => *x0 == *y0,
                    _ => false,
                }
            },
            KeyAssignment::ReopenLastClosedTab => matches!(
                other,
                KeyAssignment::ReopenLastClosedTab,
            ),
            KeyAssignment::RestorePreviousWindow => matches!(
                other,
                KeyAssignment::RestorePreviousWindow,
            ),
            KeyAssignment::ActivateWindow(x0) => {
                match other {
                    KeyAssignment::ActivateWindow(y0) => *x0 == *y0,
                    _ => false,
                }
            },
            _ => false,
        }
    }

    /// Equality of an action that belongs to moving about or quitting with any other.
    fn same_move_or_quit(&self, other: &KeyAssignment) -> (r: bool)
        requires
            matches!(
                self,
                KeyAssignment::ActivateWindowRelative(..)
                    | KeyAssignment::ActivateWindowRelativeNoWrap(..)
                    | KeyAssignment::ActivateTabRelative(..)
                    | KeyAssignment::ActivateTabRelativeNoWrap(..)
                    | KeyAssignment::ReloadConfiguration | KeyAssignment::QuitApplication
                    | KeyAssignment::MoveTabToNewWindow | KeyAssignment::MoveTabRelative(..),
            ),
        ensures
            r == (self@ == other@),
        decreases self, 0nat,
    {
        match self {
            KeyAssignment::ActivateWindowRelative(x0) => {
                match other {
                    KeyAssignment::ActivateWindowRelative(y0) => *x0 == *y0,
                    _ => false,
                }
            },
            KeyAssignment::ActivateWindowRelativeNoWrap(x0) => {
                match other {
                    KeyAssignment::ActivateWindowRelativeNoWrap(y0) => *x0 == *y0,
                    _ => false,
                }
            },
            KeyAssignment::ActivateTabRelative(x0) => {
                match other {
                    KeyAssignment::ActivateTabRelative(y0) => *x0 == *y0,
                    _ => false,
                }
            },
            KeyAssignment::ActivateTabRelativeNoWrap(x0) => {
                match other {
                    KeyAssignment::ActivateTabRelativeNoWrap(y0) => *x0 == *y0,
                    _ => false,
                }
            },
            KeyAssignment::ReloadConfiguration => matches!(
                other,
                KeyAssignment::ReloadConfiguration,
            ),
            KeyAssignment::QuitApplication => matches!(other, KeyAssignment::QuitApplication),
            KeyAssignment::MoveTabToNewWindow => matches!(other, KeyAssignment::MoveTabToNewWindow),
            KeyAssignment::MoveTabRelative(x0) => {
                match other {
                    KeyAssignment::MoveTabRelative(y0) => *x0 == *y0,
                    _ => false,
                }
            },
            _ => false,
        }
    }

    /// Equality of an action that belongs to scrolling with any other.
    fn same_scroll(&self, other: &KeyAssignment) -> (r: bool)
        requires
            matches!(
                self,
                KeyAssignment::MoveTab(..) | KeyAssignment::ScrollByPage(..)
                    | KeyAssignment::ScrollByLine(..) | KeyAssignment::ScrollToPrompt(..)
                    | KeyAssignment::ScrollByCurrentEventWheelDelta | KeyAssignment::ScrollToBottom
                    | KeyAssignment::ScrollToTop | KeyAssignment::ActivateCopyMode,
            ),
        ensures
            r == (self@ == other@),
        decreases self, 0nat,
    {
        match self {
            KeyAssignment::MoveTab(x0) => {
                match other {
                    KeyAssignment::MoveTab(y0) => *x0 == *y0,
                    _ => false,
                }
            },
            KeyAssignment::ScrollByPage(x0) => {
                match other {
                    KeyAssignment::ScrollByPage(y0) => x0.same_as(y0),
                    _ => false,
                }
            },
            KeyAssignment::ScrollByLine(x0) => {
                match other {
                    KeyAssignment::ScrollByLine(y0) => *x0 == *y0,
                    _ => false,
                }
            },
            KeyAssignment::ScrollToPrompt(x0) => {
                match other {
                    KeyAssignment::ScrollToPrompt(y0) => *x0 == *y0,
                    _ => false,
                }
            },
            KeyAssignment::ScrollByCurrentEventWheelDelta => matches!(
                other,
                KeyAssignment::ScrollByCurrentEventWheelDelta,
            ),
            KeyAssignment::ScrollToBottom => matches!(other, KeyAssignment::ScrollToBottom),
            KeyAssignment::ScrollToTop => matches!(other, KeyAssignment::ScrollToTop),
            KeyAssignment::ActivateCopyMode => matches!(other, KeyAssignment::ActivateCopyMode),
            _ => false,
        }
    }

    /// Equality of an action that belongs to splitting and resizing with any other.
    fn same_split_or_resize(&self, other: &KeyAssignment) -> (r: bool)
        requires
            matches!(
                self,
                KeyAssignment::SplitVertical(..) | KeyAssignment::SplitHorizontal(..)
                    | KeyAssignment::AdjustPaneSize(..) | KeyAssignment::ActivatePaneDirection(..)
                    | KeyAssignment::TogglePaneZoomState | KeyAssignment::ActivateLastTab
                    | KeyAssignment::ClearKeyTableStack | KeyAssignment::OpenLinkAtMouseCursor,
            ),
        ensures
            r == (self@ == other@),
        decreases self, 0nat,
    {
        match self {
            KeyAssignment::SplitVertical(x0) => {
                match other {
                    KeyAssignment::SplitVertical(y0) => x0.same_as(y0),
                    _ => false,
                }
            },
            KeyAssignment::SplitHorizontal(x0) => {
                match other {
                    KeyAssignment::SplitHorizontal(y0) => x0.same_as(y0),
                    _ => false,
                }
            },
            KeyAssignment::AdjustPaneSize(x0, x1) => {
                match other {
                    KeyAssignment::AdjustPaneSize(y0, y1) => *x0 == *y0 && *x1 == *y1,
                    _ => false,
                }
            },
            KeyAssignment::ActivatePaneDirection(x0) => {
                match other {
                    KeyAssignment::ActivatePaneDirection(y0) => *x0 == *y0,
                    _ => false,
                }
            },
            KeyAssignment::TogglePaneZoomState => matches!(
                other,
                KeyAssignment::TogglePaneZoomState,
            ),
            KeyAssignment::ActivateLastTab => matches!(other, KeyAssignment::ActivateLastTab),
            KeyAssignment::ClearKeyTableStack => matches!(other, KeyAssignment::ClearKeyTableStack),
            KeyAssignment::OpenLinkAtMouseCursor => matches!(
                other,
                KeyAssignment::OpenLinkAtMouseCursor,
            ),
            _ => false,
        }
    }

    /// Equality of an action that belongs to launching or sending text with any other.
    fn same_launch_or_send(&self, other: &KeyAssignment) -> (r: bool)
        requires
            matches!(
                self,
                KeyAssignment::ShowLauncherArgs(..) | KeyAssignment::ShowLauncher
                    | KeyAssignment::ShowTabNavigator | KeyAssignment::DetachDomain(..)
                    | KeyAssignment::OpenUri(..) | KeyAssignment::SendString(..)
                    | KeyAssignment::SendStringIfNotAltScreen(..) | KeyAssignment::SendKey(..),
            ),
        ensures
            r == (self@ == other@),
        decreases self, 0nat,
    {
        match self {
            KeyAssignment::ShowLauncherArgs(x0) => {
                match other {
                    KeyAssignment::ShowLauncherArgs(y0) => same(x0.as_str(), y0.as_str()),
                    _ => false,
                }
            },
            KeyAssignment::ShowLauncher => matches!(other, KeyAssignment::ShowLauncher),
            KeyAssignment::ShowTabNavigator => matches!(other, KeyAssignment::ShowTabNavigator),
            KeyAssignment::DetachDomain(x0) => {
                match other {
                    KeyAssignment::DetachDomain(y0) => x0.same_as(y0),
                    _ => false,
                }
            },
            KeyAssignment::OpenUri(x0) => {
                match other {
                    KeyAssignment::OpenUri(y0) => same(x0.as_str(), y0.as_str()),
                    _ => false,
                }
            },
            KeyAssignment::SendString(x0) => {
                match other {
                    KeyAssignment::SendString(y0) => same(x0.as_str(), y0.as_str()),
                    _ => false,
                }
            },
            KeyAssignment::SendStringIfNotAltScreen(x0) => {
                match other {
                    KeyAssignment::SendStringIfNotAltScreen(y0) => same(x0.as_str(), y0.as_str()),
                    _ => false,
                }
            },
            KeyAssignment::SendKey(x0) => {
                match other {
                    KeyAssignment::SendKey(y0) => same(x0.as_str(), y0.as_str()),
                    _ => false,
                }
            },
            _ => false,
        }
    }

    /// Equality of an action that belongs to nothing, broadcasting or the selection with any other.
    fn same_nop_or_selection(&self, other: &KeyAssignment) -> (r: bool)
        requires
            matches!(
                self,
                KeyAssignment::Nop | KeyAssignment::DisableDefaultAssignment
                    | KeyAssignment::ToggleCurrentTabPanesInputBroadcast
                    | KeyAssignment::ToggleAllPanesInputBroadcast
                    | KeyAssignment::SelectTextAtMouseCursor(..)
                    | KeyAssignment::ExtendSelectionToMouseCursor(..)
                    | KeyAssignment::ClearSelection | KeyAssignment::CompleteSelection(..),
            ),
        ensures
            r == (self@ == other@),
        decreases self, 0nat,
    {
        match self {
            KeyAssignment::Nop => matches!(other, KeyAssignment::Nop),
            KeyAssignment::DisableDefaultAssignment => matches!(
                other,
                KeyAssignment::DisableDefaultAssignment,
            ),
            KeyAssignment::ToggleCurrentTabPanesInputBroadcast => matches!(
                other,
                KeyAssignment::ToggleCurrentTabPanesInputBroadcast,
            ),
            KeyAssignment::ToggleAllPanesInputBroadcast => matches!(
                other,
                KeyAssignment::ToggleAllPanesInputBroadcast,
            ),
            KeyAssignment::SelectTextAtMouseCursor(x0) => {
                match other {
                    KeyAssignment::SelectTextAtMouseCursor(y0) => same(x0.as_str(), y0.as_str()),
                    _ => false,
                }
            },
            KeyAssignment::ExtendSelectionToMouseCursor(x0) => {
                match other {
                    KeyAssignment::ExtendSelectionToMouseCursor(y0) => same(
                        x0.as_str(),
                        y0.as_str(),
                    ),
                    _ => false,
                }
            },
            KeyAssignment::ClearSelection => matches!(other, KeyAssignment::ClearSelection),
            KeyAssignment::CompleteSelection(x0) => {
                match other {
                    KeyAssignment::CompleteSelection(y0) => *x0 == *y0,
                    _ => false,
                }
            },
            _ => false,
        }
    }

    /// Equality of an action that belongs to workspaces or key tables with any other.
    fn same_workspace_or_key_table(&self, other: &KeyAssignment) -> (r: bool)
        requires
            matches!(
                self,
                KeyAssignment::CompleteSelectionOrOpenLinkAtMouseCursor(..)
                    | KeyAssignment::StartWindowDrag | KeyAssignment::Multiple(..)
                    | KeyAssignment::SwitchToWorkspace { .. }
                    | KeyAssignment::SwitchWorkspaceRelative(..)
                    | KeyAssignment::ActivateKeyTable { .. } | KeyAssignment::PopKeyTable
                    | KeyAssignment::AttachDomain(..),
            ),
        ensures
            r == (self@ == other@),
        decreases self, 0nat,
    {
        match self {
            KeyAssignment::CompleteSelectionOrOpenLinkAtMouseCursor(x0) => {
                match other {
                    KeyAssignment::CompleteSelectionOrOpenLinkAtMouseCursor(y0) => *x0 == *y0,
                    _ => false,
                }
            },
            KeyAssignment::StartWindowDrag => matches!(other, KeyAssignment::StartWindowDrag),
            KeyAssignment::Multiple(x) => {
                match other {
                    KeyAssignment::Multiple(y) => same_actions(x, y),
                    _ => false,
                }
            },
            KeyAssignment::SwitchToWorkspace { name: x0, spawn: x1 } => {
                match other {
                    KeyAssignment::SwitchToWorkspace { name: y0, spawn: y1 } => same_opt(
                        x0,
                        y0,
                    ) && same_opt_command(x1, y1),
                    _ => false,
                }
            },
            KeyAssignment::SwitchWorkspaceRelative(x0) => {
                match other {
                    KeyAssignment::SwitchWorkspaceRelative(y0) => *x0 == *y0,
                    _ => false,
                }
            },
            KeyAssignment::ActivateKeyTable { name: x0, options: x1 } => {
                match other {
                    KeyAssignment::ActivateKeyTable { name: y0, options: y1 } => same(
                        x0.as_str(),
                        y0.as_str(),
                    ) && same(x1.as_str(), y1.as_str()),
                    _ => false,
                }
            },
            KeyAssignment::PopKeyTable => matches!(other, KeyAssignment::PopKeyTable),
            KeyAssignment::AttachDomain(x0) => {
                match other {
                    KeyAssignment::AttachDomain(y0) => same(x0.as_str(), y0.as_str()),
                    _ => false,
                }
            },
            _ => false,
        }
    }

    /// Equality of an action that belongs to copy mode or the layout with any other.
    fn same_copy_mode_or_layout(&self, other: &KeyAssignment) -> (r: bool)
        requires
            matches!(
                self,
                KeyAssignment::CopyMode(..) | KeyAssignment::RotatePanes(..)
                    | KeyAssignment::TogglePaneSplitDirection | KeyAssignment::SplitPane(..)
                    | KeyAssignment::ResetTerminal | KeyAssignment::ActivateCommandPalette,
            ),
        ensures
            r == (self@ == other@),
        decreases self, 0nat,
    {
        match self {
            KeyAssignment::CopyMode(x0) => {
                match other {
                    KeyAssignment::CopyMode(y0) => same(x0.as_str(), y0.as_str()),
                    _ => false,
                }
            },
            KeyAssignment::RotatePanes(x0) => {
                match other {
                    KeyAssignment::RotatePanes(y0) => *x0 == *y0,
                    _ => false,
                }
            },
            KeyAssignment::TogglePaneSplitDirection => matches!(
                other,
                KeyAssignment::TogglePaneSplitDirection,
            ),
            KeyAssignment::SplitPane(x0) => {
                match other {
                    KeyAssignment::SplitPane(y0) => x0.same_as(y0),
                    _ => false,
                }
            },
            KeyAssignment::ResetTerminal => matches!(other, KeyAssignment::ResetTerminal),
            KeyAssignment::ActivateCommandPalette => matches!(
                other,
                KeyAssignment::ActivateCommandPalette,
            ),
            _ => false,
        }
    }

    /// Whether two actions are the same, payload and all.
    pub fn same_as(&self, other: &KeyAssignment) -> (r: bool)
        ensures
            r == (self@ == other@),
        decreases self, 1nat,
    {
        match self {
            KeyAssignment::PasteFrom(..) | KeyAssignment::CopyTextTo { .. }
            | KeyAssignment::CopyTo(..) | KeyAssignment::ToggleFullScreen
            | KeyAssignment::CenterWindow | KeyAssignment::MaximizeWindow
            | KeyAssignment::ToggleAlwaysOnTop | KeyAssignment::ToggleAlwaysOnBottom => {
                self.same_clipboard_or_window(other)
            },
            KeyAssignment::SetWindowLevel(..) | KeyAssignment::Hide | KeyAssignment::Show
            | KeyAssignment::HideApplication | KeyAssignment::SpawnWindow
            | KeyAssignment::ClearScrollback(..) | KeyAssignment::Search(..)
            | KeyAssignment::ShowDebugOverlay => self.same_window_or_search(other),
            KeyAssignment::InputSelector(..) | KeyAssignment::Confirmation(..)
            | KeyAssignment::PromptInputLine(..) | KeyAssignment::QuickSelect
            | KeyAssignment::QuickSelectArgs(..) | KeyAssignment::CharSelect(..)
            | KeyAssignment::PaneSelect(..) | KeyAssignment::DecreaseFontSize => self.same_prompt_or_select(
                other,
            ),
            KeyAssignment::IncreaseFontSize | KeyAssignment::ResetFontSize
            | KeyAssignment::ResetFontAndWindowSize | KeyAssignment::SpawnTab(..)
            | KeyAssignment::SpawnCommandInNewTab(..)
            | KeyAssignment::SpawnCommandInNewWindow(..) | KeyAssignment::ActivateTab(..)
            | KeyAssignment::ActivatePaneByIndex(..) => self.same_font_or_spawn(other),
            KeyAssignment::SetPaneZoomState(..) | KeyAssignment::SetPaneEncoding(..)
            | KeyAssignment::EmitEvent(..) | KeyAssignment::CloseCurrentTab { .. }
            | KeyAssignment::CloseCurrentPane { .. } | KeyAssignment::ReopenLastClosedTab
            | KeyAssignment::RestorePreviousWindow | KeyAssignment::ActivateWindow(..) => {
                self.same_pane_or_close(other)
            },
            KeyAssignment::ActivateWindowRelative(..)
            | KeyAssignment::ActivateWindowRelativeNoWrap(..)
            | KeyAssignment::ActivateTabRelative(..)
            | KeyAssignment::ActivateTabRelativeNoWrap(..) | KeyAssignment::ReloadConfiguration
            | KeyAssignment::QuitApplication | KeyAssignment::MoveTabToNewWindow
            | KeyAssignment::MoveTabRelative(..) => self.same_move_or_quit(other),
            KeyAssignment::MoveTab(..) | KeyAssignment::ScrollByPage(..)
            | KeyAssignment::ScrollByLine(..) | KeyAssignment::ScrollToPrompt(..)
            | KeyAssignment::ScrollByCurrentEventWheelDelta | KeyAssignment::ScrollToBottom
            | KeyAssignment::ScrollToTop | KeyAssignment::ActivateCopyMode => self.same_scroll(
                other,
            ),
            KeyAssignment::SplitVertical(..) | KeyAssignment::SplitHorizontal(..)
            | KeyAssignment::AdjustPaneSize(..) | KeyAssignment::ActivatePaneDirection(..)
            | KeyAssignment::TogglePaneZoomState | KeyAssignment::ActivateLastTab
            | KeyAssignment::ClearKeyTableStack | KeyAssignment::OpenLinkAtMouseCursor => {
                self.same_split_or_resize(other)
            },
            KeyAssignment::ShowLauncherArgs(..) | KeyAssignment::ShowLauncher
            | KeyAssignment::ShowTabNavigator | KeyAssignment::DetachDomain(..)
            | KeyAssignment::OpenUri(..) | KeyAssignment::SendString(..)
            | KeyAssignment::SendStringIfNotAltScreen(..) | KeyAssignment::SendKey(..) => {
                self.same_launch_or_send(other)
            },
            KeyAssignment::Nop | KeyAssignment::DisableDefaultAssignment
            | KeyAssignment::ToggleCurrentTabPanesInputBroadcast
            | KeyAssignment::ToggleAllPanesInputBroadcast
            | KeyAssignment::SelectTextAtMouseCursor(..)
            | KeyAssignment::ExtendSelectionToMouseCursor(..) | KeyAssignment::ClearSelection
            | KeyAssignment::CompleteSelection(..) => self.same_nop_or_selection(other),
            KeyAssignment::CompleteSelectionOrOpenLinkAtMouseCursor(..)
            | KeyAssignment::StartWindowDrag | KeyAssignment::Multiple(..)
            | KeyAssignment::SwitchToWorkspace { .. }
            | KeyAssignment::SwitchWorkspaceRelative(..)
            | KeyAssignment::ActivateKeyTable { .. } | KeyAssignment::PopKeyTable
            | KeyAssignment::AttachDomain(..) => self.same_workspace_or_key_table(other),
            KeyAssignment::CopyMode(..) | KeyAssignment::RotatePanes(..)
            | KeyAssignment::TogglePaneSplitDirection | KeyAssignment::SplitPane(..)
            | KeyAssignment::ResetTerminal | KeyAssignment::ActivateCommandPalette => {
                self.same_copy_mode_or_layout(other)
            },
        }
    }
}

} // verus!
