//! The command catalogue: what each action is called, documented as, bound to
//! by default, and where the menubar shows it.
use crate::key_assignment::{
    ActionView, ClipboardCopyDestination, ClipboardPasteSource, DomainView, KeyAssignment,
    PageAmount, PageAmountView, PaneDirection, PaneSelectArguments, PaneSelectMode, PaneSelectView,
    Pattern, PatternView, RotationDirection, ScrollbackEraseMode, SpawnCommand, SpawnCommandView,
    SpawnTabDomain, SplitPane, WindowLevel, action_views,
    plain_command,
};
use crate::keys::{
    ALT, CTRL, KeyCode, KeyTable, Modifiers, NONE, SHIFT, SUPER, contains_mods, has_mods,
};
use crate::text::{
    chars_of, concat2, concat3, concat4, concat5, decimal, decimal_int, decimal_of,
    decimal_of_signed, opt_view, same, starts_with, string_of, upper_char, ascii_upper_char, views,
    ascii_lower_char, is_alnum, is_ascii_alphanumeric, lower_char,
};
use vstd::prelude::*;
use vstd::string::*;

verus! {

/// The system that the catalogue is made for.
#[derive(Clone, Copy, Debug, PartialEq, Eq, Structural)]
pub enum Platform {
    MacOs,
    Other,
}

/// Describes an argument/parameter/context that is required
/// in order for the command to have meaning.
/// The intent is for this to be used when filtering the items
/// that should be shown in eg: a context menu.
#[derive(Clone, Copy, Debug, PartialEq, Eq, Structural)]
pub enum ArgType {
    /// Operates on the active pane
    ActivePane,
    /// Operates on the active tab
    ActiveTab,
    /// Operates on the active window
    ActiveWindow,
}

/// The one context that a catalogue entry needs, if any.
#[derive(Clone, Copy, Debug, PartialEq, Eq, Structural)]
pub enum Scope {
    Nothing,
    Pane,
    Tab,
    Window,
}

/// The menu that shows a catalogue entry, if any.
#[derive(Clone, Copy, Debug, PartialEq, Eq, Structural)]
pub enum Menu {
    Nothing,
    Kaku,
    Shell,
    Edit,
    View,
    Window,
    Help,
}

/// `CommandDef` defines a command in the UI.
#[derive(Debug)]
pub struct CommandDef {
    /// Brief description
    pub brief: String,
    /// A longer, more detailed, description
    pub doc: String,
    /// The key assignments associated with this command.
    pub keys: Vec<(Modifiers, String)>,
    /// The argument types/context in which this command is valid.
    pub args: Vec<ArgType>,
    /// Where to place the command in a menubar
    pub menubar: Vec<String>,
    pub icon: Option<String>,
}

/// The model of a command.
pub struct CommandView {
    pub brief: Seq<char>,
    pub doc: Seq<char>,
    pub keys: Seq<(u16, Seq<char>)>,
    pub args: Seq<ArgType>,
    pub menubar: Seq<Seq<char>>,
    pub icon: Option<Seq<char>>,
}

/// The model of a list of chords.
pub open spec fn chord_views(keys: Seq<(Modifiers, String)>) -> Seq<(u16, Seq<char>)> {
    keys.map_values(|k: (Modifiers, String)| (k.0, k.1@))
}

impl View for CommandDef {
    type V = CommandView;

    open spec fn view(&self) -> CommandView {
        CommandView {
            brief: self.brief@,
            doc: self.doc@,
            keys: chord_views(self.keys@),
            args: self.args@,
            menubar: views(self.menubar@),
            icon: opt_view(self.icon),
        }
    }
}

pub open spec fn opt_command(c: Option<CommandDef>) -> Option<CommandView> {
    match c {
        Some(command) => Some(command@),
        None => None,
    }
}

pub open spec fn scope_args(scope: Scope) -> Seq<ArgType> {
    match scope {
        Scope::Nothing => Seq::empty(),
        Scope::Pane => seq![ArgType::ActivePane],
        Scope::Tab => seq![ArgType::ActiveTab],
        Scope::Window => seq![ArgType::ActiveWindow],
    }
}

pub open spec fn menu_path(menu: Menu) -> Seq<Seq<char>> {
    match menu {
        Menu::Nothing => Seq::empty(),
        Menu::Kaku => seq!["Kaku"@],
        Menu::Shell => seq!["Shell"@],
        Menu::Edit => seq!["Edit"@],
        Menu::View => seq!["View"@],
        Menu::Window => seq!["Window"@],
        Menu::Help => seq!["Help"@],
    }
}

pub open spec fn no_chords() -> Seq<(u16, Seq<char>)> {
    Seq::empty()
}

pub open spec fn command_view(
    brief: Seq<char>,
    doc: Seq<char>,
    keys: Seq<(u16, Seq<char>)>,
    scope: Scope,
    menu: Menu,
    icon: Option<Seq<char>>,
) -> CommandView {
    CommandView { brief, doc, keys, args: scope_args(scope), menubar: menu_path(menu), icon }
}

fn single_path(title: &str) -> (r: Vec<String>)
    ensures
        views(r@) == seq![title@],
{
    let mut r: Vec<String> = Vec::new();
    r.push(title.to_owned());
    assert(views(r@) =~= seq![title@]);
    r
}

impl CommandDef {
    /// Assembles a catalogue entry.
    fn describe(
        brief: &str,
        doc: &str,
        keys: Vec<(Modifiers, String)>,
        scope: Scope,
        menu: Menu,
        icon: Option<String>,
    ) -> (r: CommandDef)
        ensures
            r@ == command_view(brief@, doc@, chord_views(keys@), scope, menu, opt_view(icon)),
    {
        let mut args: Vec<ArgType> = Vec::new();
        match scope {
            Scope::Nothing => {},
            Scope::Pane => args.push(ArgType::ActivePane),
            Scope::Tab => args.push(ArgType::ActiveTab),
            Scope::Window => args.push(ArgType::ActiveWindow),
        }
        let menubar = match menu {
            Menu::Nothing => Vec::new(),
            Menu::Kaku => single_path("Kaku"),
            Menu::Shell => single_path("Shell"),
            Menu::Edit => single_path("Edit"),
            Menu::View => single_path("View"),
            Menu::Window => single_path("Window"),
            Menu::Help => single_path("Help"),
        };
        assert(args@ =~= scope_args(scope));
        assert(views(menubar@) =~= menu_path(menu));
        CommandDef { brief: brief.to_owned(), doc: doc.to_owned(), keys, args, menubar, icon }
    }
}

fn chords0() -> (r: Vec<(Modifiers, String)>)
    ensures
        chord_views(r@) == no_chords(),
{
    let r: Vec<(Modifiers, String)> = Vec::new();
    assert(chord_views(r@) =~= no_chords());
    r
}

fn chords1(m: Modifiers, label: &str) -> (r: Vec<(Modifiers, String)>)
    ensures
        chord_views(r@) == seq![(m, label@)],
{
    let mut r: Vec<(Modifiers, String)> = Vec::new();
    r.push((m, label.to_owned()));
    assert(chord_views(r@) =~= seq![(m, label@)]);
    r
}

fn chords2(m: Modifiers, label: &str, m2: Modifiers, label2: &str) -> (r: Vec<(Modifiers, String)>)
    ensures
        chord_views(r@) == seq![(m, label@), (m2, label2@)],
{
    let mut r: Vec<(Modifiers, String)> = Vec::new();
    r.push((m, label.to_owned()));
    r.push((m2, label2.to_owned()));
    assert(chord_views(r@) =~= seq![(m, label@), (m2, label2@)]);
    r
}

fn chords3(
    m: Modifiers,
    label: &str,
    m2: Modifiers,
    label2: &str,
    m3: Modifiers,
    label3: &str,
) -> (r: Vec<(Modifiers, String)>)
    ensures
        chord_views(r@) == seq![(m, label@), (m2, label2@), (m3, label3@)],
{
    let mut r: Vec<(Modifiers, String)> = Vec::new();
    r.push((m, label.to_owned()));
    r.push((m2, label2.to_owned()));
    r.push((m3, label3.to_owned()));
    assert(chord_views(r@) =~= seq![(m, label@), (m2, label2@), (m3, label3@)]);
    r
}

// ---------------------------------------------------------------------------
// Words
// ---------------------------------------------------------------------------

pub open spec fn abs_of(n: int) -> int {
    if n < 0 {
        -n
    } else {
        n
    }
}

/// The English ordinal of a number: "1st", "2nd", "11th".
pub open spec fn ordinal_of(n: int) -> Seq<char> {
    let m = abs_of(n);
    decimal_int(n) + if m % 10 == 1 && m % 100 != 11 {
        "st"@
    } else if m % 10 == 2 && m % 100 != 12 {
        "nd"@
    } else if m % 10 == 3 && m % 100 != 13 {
        "rd"@
    } else {
        "th"@
    }
}

/// Given "1" return "1st", "2" -> "2nd" and so on
pub fn english_ordinal(n: i128) -> (r: String)
    requires
        n > i128::MIN,
    ensures
        r@ == ordinal_of(n as int),
{
    let m: i128 = if n < 0 {
        -n
    } else {
        n
    };
    let ones: u8 = (m % 10) as u8;
    let tens: u8 = (m % 100) as u8;
    let suffix = if ones == 1 && tens != 11 {
        "st"
    } else if ones == 2 && tens != 12 {
        "nd"
    } else if ones == 3 && tens != 13 {
        "rd"
    } else {
        "th"
    };
    concat2(decimal_of_signed(n).as_str(), suffix)
}

/// An index read as a signed number of the same width.
pub open spec fn as_signed(n: usize) -> int {
    if n <= isize::MAX {
        n as int
    } else {
        n - usize::MAX - 1
    }
}

fn signed_index(n: usize) -> (r: i128)
    ensures
        r == as_signed(n),
        -0x8000_0000_0000_0000 <= r < 0x8000_0000_0000_0000,
{
    if n <= isize::MAX as usize {
        n as i128
    } else {
        n as i128 - usize::MAX as i128 - 1
    }
}

fn magnitude(n: isize) -> (r: i128)
    ensures
        r == abs_of(n as int),
        0 <= r <= 0x8000_0000_0000_0000,
{
    if n < 0 {
        -(n as i128)
    } else {
        n as i128
    }
}

pub open spec fn destination_text(d: ClipboardCopyDestination) -> Seq<char> {
    match d {
        ClipboardCopyDestination::Clipboard => "Clipboard"@,
        ClipboardCopyDestination::PrimarySelection => "PrimarySelection"@,
        ClipboardCopyDestination::ClipboardAndPrimarySelection => "ClipboardAndPrimarySelection"@,
    }
}

fn destination_name(d: ClipboardCopyDestination) -> (r: &'static str)
    ensures
        r@ == destination_text(d),
{
    match d {
        ClipboardCopyDestination::Clipboard => "Clipboard",
        ClipboardCopyDestination::PrimarySelection => "PrimarySelection",
        ClipboardCopyDestination::ClipboardAndPrimarySelection => "ClipboardAndPrimarySelection",
    }
}

pub open spec fn rotation_text(d: RotationDirection) -> Seq<char> {
    match d {
        RotationDirection::Clockwise => "Clockwise"@,
        RotationDirection::CounterClockwise => "CounterClockwise"@,
    }
}

fn rotation_name(d: RotationDirection) -> (r: &'static str)
    ensures
        r@ == rotation_text(d),
{
    match d {
        RotationDirection::Clockwise => "Clockwise",
        RotationDirection::CounterClockwise => "CounterClockwise",
    }
}

pub open spec fn direction_text(d: PaneDirection) -> Seq<char> {
    match d {
        PaneDirection::Up => "Up"@,
        PaneDirection::Down => "Down"@,
        PaneDirection::Left => "Left"@,
        PaneDirection::Right => "Right"@,
        PaneDirection::Next => "Next"@,
        PaneDirection::Prev => "Prev"@,
    }
}

fn direction_name(d: PaneDirection) -> (r: &'static str)
    ensures
        r@ == direction_text(d),
{
    match d {
        PaneDirection::Up => "Up",
        PaneDirection::Down => "Down",
        PaneDirection::Left => "Left",
        PaneDirection::Right => "Right",
        PaneDirection::Next => "Next",
        PaneDirection::Prev => "Prev",
    }
}

pub open spec fn icon_of(d: PaneDirection) -> Option<Seq<char>> {
    match d {
        PaneDirection::Up | PaneDirection::Down => Some("cod_split_vertical"@),
        PaneDirection::Left | PaneDirection::Right => Some("cod_split_horizontal"@),
        PaneDirection::Next | PaneDirection::Prev => None,
    }
}

fn split_icon(d: PaneDirection) -> (r: Option<String>)
    ensures
        opt_view(r) == icon_of(d),
{
    match d {
        PaneDirection::Up | PaneDirection::Down => Some("cod_split_vertical".to_owned()),
        PaneDirection::Left | PaneDirection::Right => Some("cod_split_horizontal".to_owned()),
        PaneDirection::Next | PaneDirection::Prev => None,
    }
}

/// The character that shells read as line-editor undo.
pub const UNDO_CHAR: char = '\u{1f}';

fn is_undo_text(text: &str) -> (r: bool)
    ensures
        r == (text@ == seq![UNDO_CHAR]),
{
    let cs = chars_of(text);
    let r = cs.len() == 1 && cs[0] == UNDO_CHAR;
    proof {
        if r {
            assert(text@ =~= seq![UNDO_CHAR]);
        }
    }
    r
}

/// How a string prints in a debug rendering: quoted, with escapes.
pub uninterp spec fn debug_quoted(s: Seq<char>) -> Seq<char>;

/// The debug rendering of a string, by the `Debug` formatting of `str`: a
/// function of its characters. What the escapes look like is not stated.
#[verifier::external_body]
fn debug_string(s: &str) -> (r: String)
    ensures
        r@ == debug_quoted(s@),
{
    format!("{:?}", s)
}

// ---------------------------------------------------------------------------
// Derivation
// ---------------------------------------------------------------------------

/// The program that an action spawns, where it spawns one.
pub open spec fn spawned_by(action: ActionView) -> Option<SpawnCommandView> {
    match action {
        ActionView::SplitPane(split) => Some(split.command),
        ActionView::SplitHorizontal(command)
        | ActionView::SplitVertical(command)
        | ActionView::SpawnCommandInNewWindow(command)
        | ActionView::SpawnCommandInNewTab(command) => Some(command),
        _ => None,
    }
}

fn spawn_command_from_action(action: &KeyAssignment) -> (r: Option<&SpawnCommand>)
    ensures
        r matches Some(c) ==> spawned_by(action@) == Some(c@),
        r is None ==> spawned_by(action@) is None,
{
    match action {
        KeyAssignment::SplitPane(split) => Some(&split.command),
        KeyAssignment::SplitHorizontal(command)
        | KeyAssignment::SplitVertical(command)
        | KeyAssignment::SpawnCommandInNewWindow(command)
        | KeyAssignment::SpawnCommandInNewTab(command) => Some(command),
        _ => None,
    }
}

/// The palette label of the program that `action` spawns, else `candidate`.
pub open spec fn labelled(action: ActionView, candidate: Seq<char>) -> Seq<char> {
    match spawned_by(action) {
        Some(command) => match command.palette_label {
            Some(label) => label,
            None => candidate,
        },
        None => candidate,
    }
}

fn label_string(action: &KeyAssignment, candidate: String) -> (r: String)
    ensures
        r@ == labelled(action@, candidate@),
{
    match spawn_command_from_action(action) {
        Some(command) => match command.label_for_palette() {
            Some(label) => label,
            None => candidate,
        },
        None => candidate,
    }
}

/// Whether an event name belongs to a handler that is not offered to the user.
pub open spec fn internal_event(name: Seq<char>) -> bool {
    "user-defined-"@.is_prefix_of(name)
}

pub fn is_internal_emit_event_name(name: &str) -> (r: bool)
    ensures
        r == internal_event(name@),
{
    starts_with(name, "user-defined-")
}

/// How an action prints that has no command of its own.
pub open spec fn undescribed_text(action: ActionView) -> Seq<char> {
    match action {
        ActionView::EmitEvent(name) => "EmitEvent("@ + debug_quoted(name) + ")"@,
        ActionView::AdjustPaneSize(d, n) => "AdjustPaneSize("@ + direction_text(d) + ", "@
            + decimal(n as nat) + ")"@,
        ActionView::ActivatePaneDirection(d) => "ActivatePaneDirection("@ + direction_text(d)
            + ")"@,
        ActionView::DisableDefaultAssignment => "DisableDefaultAssignment"@,
        ActionView::ToggleCurrentTabPanesInputBroadcast => "ToggleCurrentTabPanesInputBroadcast"@,
        _ => "ToggleAllPanesInputBroadcast"@,
    }
}

fn undescribed_name(action: &KeyAssignment) -> (r: String)
    ensures
        r@ == undescribed_text(action@),
{
    match action {
        KeyAssignment::EmitEvent(name) => concat3(
            "EmitEvent(",
            debug_string(name.as_str()).as_str(),
            ")",
        ),
        KeyAssignment::AdjustPaneSize(d, n) => concat5(
            "AdjustPaneSize(",
            direction_name(*d),
            ", ",
            decimal_of(*n as u128).as_str(),
            ")",
        ),
        KeyAssignment::ActivatePaneDirection(d) => concat3(
            "ActivatePaneDirection(",
            direction_name(*d),
            ")",
        ),
        KeyAssignment::DisableDefaultAssignment => "DisableDefaultAssignment".to_owned(),
        KeyAssignment::ToggleCurrentTabPanesInputBroadcast => {
            "ToggleCurrentTabPanesInputBroadcast".to_owned()
        },
        _ => "ToggleAllPanesInputBroadcast".to_owned(),
    }
}

/// The briefs of the first `n` parts of a compound action, with a comma before
/// each that does not start the text.
pub open spec fn briefs_of(parts: Seq<ActionView>, platform: Platform, n: nat) -> Seq<char>
    decreases parts, n,
{
    if n == 0 || n > parts.len() {
        seq![]
    } else {
        let before = briefs_of(parts, platform, (n - 1) as nat);
        let lead = if before.len() == 0 {
            before
        } else {
            before + ", "@
        };
        lead + match command_of(parts[n - 1], platform) {
            Some(command) => command.brief,
            None => undescribed_text(parts[n - 1]),
        }
    }
}

pub open spec fn clipboard_or_window_command(
    action: ActionView,
    platform: Platform,
) -> Option<CommandView>
{
    match action {
        ActionView::PasteFrom(ClipboardPasteSource::PrimarySelection) => Some(
            command_view(
                "Paste primary selection"@,
                "Pastes text from the primary selection"@,
                seq![(SHIFT, "Insert"@)],
                Scope::Pane,
                Menu::Nothing,
                None,
            ),
        ),
        ActionView::CopyTextTo { text: _, destination: ClipboardCopyDestination::PrimarySelection }
        | ActionView::CopyTo(ClipboardCopyDestination::PrimarySelection) => Some(
            command_view(
                "Copy to primary selection"@,
                "Copies text to the primary selection"@,
                seq![(CTRL, "Insert"@)],
                Scope::Pane,
                Menu::Nothing,
                None,
            ),
        ),
        ActionView::CopyTextTo { text: _, destination: ClipboardCopyDestination::Clipboard }
        | ActionView::CopyTo(ClipboardCopyDestination::Clipboard) => Some(
            command_view(
                "Copy to clipboard"@,
                "Copies text to the clipboard"@,
                seq![(SUPER, "c"@), (NONE, "Copy"@)],
                Scope::Pane,
                Menu::Edit,
                None,
            ),
        ),
        ActionView::CopyTextTo {
            text: _,
            destination: ClipboardCopyDestination::ClipboardAndPrimarySelection,
        }
        | ActionView::CopyTo(ClipboardCopyDestination::ClipboardAndPrimarySelection) => Some(
            command_view(
                "Copy to clipboard and primary selection"@,
                "Copies text to the clipboard and the primary selection"@,
                seq![(CTRL, "Insert"@)],
                Scope::Pane,
                Menu::Nothing,
                None,
            ),
        ),
        ActionView::PasteFrom(ClipboardPasteSource::Clipboard) => Some(
            command_view(
                "Paste from clipboard"@,
                "Pastes text from the clipboard"@,
                seq![(SUPER, "v"@), (NONE, "Paste"@)],
                Scope::Pane,
                Menu::Edit,
                None,
            ),
        ),
        ActionView::ToggleFullScreen => Some(
            command_view(
                "Toggle Full Screen"@,
                "Toggle full screen mode"@,
                seq![(CTRL | SUPER, "f"@)],
                Scope::Window,
                Menu::Window,
                None,
            ),
        ),
        ActionView::CenterWindow => Some(
            command_view(
                "Center"@,
                "Center the current window on the active display"@,
                no_chords(),
                Scope::Window,
                Menu::Window,
                None,
            ),
        ),
        ActionView::MaximizeWindow => Some(
            command_view(
                "Fill"@,
                "Zoom the window to fill the active display (AppKit zoom)"@,
                no_chords(),
                Scope::Window,
                Menu::Window,
                None,
            ),
        ),
        ActionView::ToggleAlwaysOnTop => Some(
            command_view(
                "Always on Top"@,
                "Keep window above others"@,
                seq![(SUPER | SHIFT, "UpArrow"@)],
                Scope::Window,
                Menu::Window,
                None,
            ),
        ),
        ActionView::ToggleAlwaysOnBottom => Some(
            command_view(
                "Always on Bottom"@,
                "Keep window behind others"@,
                no_chords(),
                Scope::Window,
                Menu::Nothing,
                None,
            ),
        ),
        ActionView::SetWindowLevel(WindowLevel::AlwaysOnTop) => Some(
            command_view(
                "Always on Top"@,
                "Set the window level to be on top of other windows."@,
                no_chords(),
                Scope::Window,
                Menu::Nothing,
                None,
            ),
        ),
        ActionView::SetWindowLevel(WindowLevel::Normal) => Some(
            command_view(
                "Normal"@,
                "Set window level to normal"@,
                no_chords(),
                Scope::Window,
                Menu::Nothing,
                None,
            ),
        ),
        ActionView::SetWindowLevel(WindowLevel::AlwaysOnBottom) => Some(
            command_view(
                "Always on Bottom"@,
                "Set window to remain behind all other windows."@,
                no_chords(),
                Scope::Window,
                Menu::Nothing,
                None,
            ),
        ),
        ActionView::Hide => Some(
            command_view(
                "Minimize"@,
                "Minimize current window"@,
                seq![(SUPER, "m"@)],
                Scope::Window,
                Menu::Window,
                None,
            ),
        ),
        ActionView::Show => Some(
            command_view(
                "Show/Restore Window"@,
                "Show/Restore the current window"@,
                no_chords(),
                Scope::Window,
                Menu::Nothing,
                None,
            ),
        ),
        ActionView::HideApplication => Some(
            command_view(
                "Hide Kaku"@,
                "Hide all Kaku windows"@,
                seq![(SUPER, "h"@)],
                Scope::Nothing,
                Menu::Kaku,
                None,
            ),
        ),
        ActionView::SpawnWindow => Some(
            command_view(
                "New Window"@,
                "Open a new window"@,
                seq![(SUPER, "n"@)],
                Scope::Nothing,
                Menu::Shell,
                None,
            ),
        ),
        _ => None,
    }
}

pub open spec fn screen_command(action: ActionView, platform: Platform) -> Option<CommandView>
{
    match action {
        ActionView::ClearScrollback(ScrollbackEraseMode::ScrollbackOnly) => Some(
            command_view(
                "Clear Scrollback"@,
                "Clear scrollback history"@,
                seq![(SUPER, "k"@)],
                Scope::Pane,
                Menu::Edit,
                None,
            ),
        ),
        ActionView::ClearScrollback(ScrollbackEraseMode::ScrollbackAndViewport) => Some(
            command_view(
                "Clear the scrollback and viewport"@,
                "Removes all content from the screen and scrollback"@,
                no_chords(),
                Scope::Pane,
                Menu::Nothing,
                None,
            ),
        ),
        ActionView::Search(PatternView::CurrentSelectionOrEmptyString) => Some(
            command_view(
                "Search"@,
                "Search in current pane"@,
                seq![(SUPER, "f"@)],
                Scope::Pane,
                Menu::Edit,
                None,
            ),
        ),
        ActionView::Search(PatternView::Explicit(_)) => Some(
            command_view(
                "Search pane output"@,
                "Enters the search mode UI for the current pane"@,
                no_chords(),
                Scope::Pane,
                Menu::Nothing,
                None,
            ),
        ),
        ActionView::ShowDebugOverlay => Some(
            command_view(
                "Kaku Doctor"@,
                "Run kaku doctor in the current pane"@,
                seq![(CTRL | SHIFT, "l"@)],
                Scope::Window,
                Menu::Shell,
                None,
            ),
        ),
        ActionView::InputSelector(_) => Some(
            command_view(
                "Prompt the user to choose from a list"@,
                "Activates the selector overlay and wait for input"@,
                no_chords(),
                Scope::Window,
                Menu::Nothing,
                None,
            ),
        ),
        ActionView::Confirmation(_) => Some(
            command_view(
                "Prompt the user for confirmation"@,
                "Activates the confirmation overlay and wait for input"@,
                no_chords(),
                Scope::Window,
                Menu::Nothing,
                None,
            ),
        ),
        ActionView::PromptInputLine(_) => Some(
            command_view(
                "Prompt the user for a line of text"@,
                "Activates the prompt overlay and wait for input"@,
                no_chords(),
                Scope::Window,
                Menu::Nothing,
                None,
            ),
        ),
        ActionView::QuickSelect => Some(
            command_view(
                "QuickSelect"@,
                "Quick selection mode"@,
                seq![(CTRL | SHIFT, "Space"@)],
                Scope::Pane,
                Menu::Edit,
                None,
            ),
        ),
        ActionView::QuickSelectArgs(_) => Some(
            command_view(
                "Enter QuickSelect mode"@,
                "Activates the quick selection UI for the current pane"@,
                no_chords(),
                Scope::Pane,
                Menu::Nothing,
                None,
            ),
        ),
        ActionView::CharSelect(_) => Some(
            command_view(
                "Enter Emoji / Character selection mode"@,
                "Activates the character selection UI for the current pane"@,
                seq![(CTRL | SHIFT, "u"@)],
                Scope::Pane,
                Menu::Nothing,
                None,
            ),
        ),
        ActionView::PaneSelect(select) => {
            if matches!(select.mode, PaneSelectMode::Activate) {
                Some(
                    command_view(
                        "Select Pane"@,
                        "Select a pane interactively"@,
                        seq![(SUPER | ALT, "p"@)],
                        Scope::Pane,
                        Menu::Window,
                        None,
                    ),
                )
            } else if matches!(select.mode, PaneSelectMode::SwapWithActive) {
                Some(
                    command_view(
                        "Swap a pane with the active pane"@,
                        "Activates the pane selection UI"@,
                        no_chords(),
                        Scope::Pane,
                        Menu::Nothing,
                        None,
                    ),
                )
            } else if matches!(select.mode, PaneSelectMode::SwapWithActiveKeepFocus) {
                Some(
                    command_view(
                        "Swap a pane with the active pane, keeping focus"@,
                        "Activates the pane selection UI"@,
                        no_chords(),
                        Scope::Pane,
                        Menu::Nothing,
                        None,
                    ),
                )
            } else if matches!(select.mode, PaneSelectMode::MoveToNewTab) {
                Some(
                    command_view(
                        "Move Pane to New Tab"@,
                        "Move selected pane to a new tab"@,
                        seq![(SUPER | ALT | SHIFT, "t"@)],
                        Scope::Pane,
                        Menu::Window,
                        None,
                    ),
                )
            } else {
                Some(
                    command_view(
                        "Move Pane to New Window"@,
                        "Move selected pane to a new window"@,
                        seq![(SUPER | ALT | SHIFT, "n"@)],
                        Scope::Pane,
                        Menu::Window,
                        None,
                    ),
                )
            }
        },
        _ => None,
    }
}

pub open spec fn font_or_spawn_command(
    action: ActionView,
    platform: Platform,
) -> Option<CommandView>
{
    match action {
        ActionView::DecreaseFontSize => Some(
            command_view(
                "Decrease Font Size"@,
                "Make text smaller"@,
                seq![(SUPER, "-"@), (CTRL, "-"@)],
                Scope::Window,
                Menu::View,
                None,
            ),
        ),
        ActionView::IncreaseFontSize => Some(
            command_view(
                "Increase Font Size"@,
                "Make text larger"@,
                seq![(SUPER, "="@), (CTRL, "="@)],
                Scope::Window,
                Menu::View,
                None,
            ),
        ),
        ActionView::ResetFontSize => Some(
            command_view(
                "Reset Font Size"@,
                "Reset to configured font size"@,
                seq![(SUPER, "0"@), (CTRL, "0"@)],
                Scope::Window,
                Menu::View,
                None,
            ),
        ),
        ActionView::ResetFontAndWindowSize => Some(
            command_view(
                "Reset Window & Font Size"@,
                "Reset window and font to defaults"@,
                no_chords(),
                Scope::Window,
                Menu::View,
                None,
            ),
        ),
        ActionView::SpawnTab(DomainView::CurrentPaneDomain) => Some(
            command_view(
                "New Tab"@,
                "Open a new tab"@,
                seq![(SUPER, "t"@)],
                Scope::Window,
                Menu::Shell,
                None,
            ),
        ),
        ActionView::SpawnTab(DomainView::DefaultDomain) => Some(
            command_view(
                "New Tab"@,
                "New tab in default domain"@,
                no_chords(),
                Scope::Window,
                Menu::Shell,
                None,
            ),
        ),
        ActionView::SpawnTab(DomainView::DomainName(name)) => Some(
            command_view(
                "New Tab "@ + name,
                "New tab in "@ + name + " domain"@,
                no_chords(),
                Scope::Window,
                Menu::Nothing,
                None,
            ),
        ),
        ActionView::SpawnTab(DomainView::DomainId(id)) => Some(
            command_view(
                "New Tab Domain "@ + decimal(id as nat),
                "New tab in domain "@ + decimal(id as nat),
                no_chords(),
                Scope::Window,
                Menu::Nothing,
                None,
            ),
        ),
        ActionView::SpawnCommandInNewTab(cmd) => {
            let label = labelled(action, "Spawn a new Tab with "@ + cmd.summary);
            Some(
                command_view(
                    label,
                    "Spawn a new Tab with "@ + cmd.summary,
                    no_chords(),
                    Scope::Nothing,
                    Menu::Nothing,
                    None,
                ),
            )
        },
        ActionView::SpawnCommandInNewWindow(cmd) => {
            let label = labelled(action, "Spawn a new Window with "@ + cmd.summary);
            Some(
                command_view(
                    label,
                    "Spawn a new Window with "@ + cmd.summary,
                    no_chords(),
                    Scope::Nothing,
                    Menu::Nothing,
                    None,
                ),
            )
        },
        _ => None,
    }
}

pub open spec fn direct_target_command(
    action: ActionView,
    platform: Platform,
) -> Option<CommandView>
{
    match action {
        ActionView::ActivateTab(n) => {
            if n == -1 {
                Some(
                    command_view(
                        "Activate right-most tab"@,
                        "Activates the tab on the far right"@,
                        seq![(SUPER, "9"@)],
                        Scope::Window,
                        Menu::Nothing,
                        None,
                    ),
                )
            } else if n >= 0 && n <= 7 {
                Some(
                    command_view(
                        "Activate "@ + ordinal_of(n + 1) + " Tab"@,
                        "Activates the "@ + ordinal_of(n + 1) + " tab"@,
                        seq![(SUPER, decimal((n + 1) as nat))],
                        Scope::Window,
                        Menu::Nothing,
                        None,
                    ),
                )
            } else {
                Some(
                    command_view(
                        "Activate "@ + ordinal_of(n + 1) + " Tab"@,
                        "Activates the "@ + ordinal_of(n + 1) + " tab"@,
                        no_chords(),
                        Scope::Window,
                        Menu::Nothing,
                        None,
                    ),
                )
            }
        },
        ActionView::ActivatePaneByIndex(n) => {
            let ordinal = ordinal_of(as_signed(n));
            Some(
                command_view(
                    "Activate "@ + ordinal + " Pane"@,
                    "Activates the "@ + ordinal + " Pane"@,
                    no_chords(),
                    Scope::Window,
                    Menu::Nothing,
                    None,
                ),
            )
        },
        ActionView::SetPaneZoomState(true) => Some(
            command_view(
                "Zooms the current Pane"@,
                "Places the current pane into the zoomed state, filling all of the space in the tab"@,
                no_chords(),
                Scope::Window,
                Menu::Nothing,
                None,
            ),
        ),
        ActionView::SetPaneZoomState(false) => Some(
            command_view(
                "Un-Zooms the current Pane"@,
                "Takes the current pane out of the zoomed state"@,
                no_chords(),
                Scope::Window,
                Menu::Nothing,
                None,
            ),
        ),
        ActionView::SetPaneEncoding(encoding) => Some(
            command_view(
                "Set Pane Encoding to "@ + encoding,
                "Sets the current pane encoding to "@ + encoding,
                no_chords(),
                Scope::Pane,
                Menu::Nothing,
                None,
            ),
        ),
        ActionView::EmitEvent(name) => {
            if internal_event(name) {
                None
            } else if name == "kaku-ai-chat"@ {
                Some(
                    command_view(
                        "AI Chat"@,
                        "Open AI conversation in current terminal pane"@,
                        seq![(SUPER, "l"@)],
                        Scope::Pane,
                        Menu::Shell,
                        None,
                    ),
                )
            } else if name == "run-kaku-ai-config"@ {
                Some(
                    command_view(
                        "AI Config"@,
                        "Open AI configuration"@,
                        seq![(SUPER | SHIFT, "a"@)],
                        Scope::Window,
                        Menu::Shell,
                        None,
                    ),
                )
            } else if name == "kaku-ai-apply-last-fix"@ {
                Some(
                    command_view(
                        "Apply Last AI Fix"@,
                        "Apply the latest Kaku Assistant suggestion for the active pane"@,
                        seq![(SUPER | SHIFT, "e"@)],
                        Scope::Window,
                        Menu::Shell,
                        None,
                    ),
                )
            } else if name == "kaku-launch-lazygit"@ {
                Some(
                    command_view(
                        "Lazygit"@,
                        "Open lazygit"@,
                        seq![(SUPER | SHIFT, "g"@)],
                        Scope::Window,
                        Menu::Shell,
                        None,
                    ),
                )
            } else if name == "kaku-launch-yazi"@ {
                Some(
                    command_view(
                        "Yazi File Manager"@,
                        "Open Yazi file manager"@,
                        seq![(SUPER | SHIFT, "y"@)],
                        Scope::Window,
                        Menu::Shell,
                        None,
                    ),
                )
            } else if name == "kaku-open-remote-files"@ {
                Some(
                    command_view(
                        "Remote Files"@,
                        "Open the current SSH domain in a local Yazi tab"@,
                        seq![(SUPER | SHIFT, "r"@)],
                        Scope::Window,
                        Menu::Shell,
                        None,
                    ),
                )
            } else {
                Some(
                    command_view(
                        "Emit event `"@ + name + "`"@,
                        "Emits the named event, causing any associated event handler(s) to trigger"@,
                        no_chords(),
                        Scope::Window,
                        Menu::Nothing,
                        None,
                    ),
                )
            }
        },
        _ => None,
    }
}

pub open spec fn close_or_window_command(
    action: ActionView,
    platform: Platform,
) -> Option<CommandView>
{
    match action {
        ActionView::CloseCurrentTab { confirm: true } => Some(
            command_view(
                "Close Tab"@,
                "Close current tab using the configured close confirmation policy"@,
                seq![(SUPER | SHIFT, "w"@)],
                Scope::Tab,
                Menu::Shell,
                None,
            ),
        ),
        ActionView::CloseCurrentTab { confirm: false } => Some(
            command_view(
                "Close Tab"@,
                "Close current tab without smart confirmation"@,
                no_chords(),
                Scope::Tab,
                Menu::Nothing,
                None,
            ),
        ),
        ActionView::CloseCurrentPane { confirm: true } => Some(
            command_view(
                "Close Pane"@,
                "Close current pane using the configured close confirmation policy"@,
                seq![(SUPER, "w"@)],
                Scope::Pane,
                Menu::Shell,
                None,
            ),
        ),
        ActionView::CloseCurrentPane { confirm: false } => Some(
            command_view(
                "Close Pane"@,
                "Close current pane without smart confirmation"@,
                no_chords(),
                Scope::Pane,
                Menu::Nothing,
                None,
            ),
        ),
        ActionView::ReopenLastClosedTab => Some(
            command_view(
                "Reopen Last Closed Tab"@,
                "Reopens the most recently closed tab, restoring its working directory."@,
                seq![(SUPER | SHIFT, "t"@)],
                Scope::Window,
                Menu::Shell,
                None,
            ),
        ),
        ActionView::RestorePreviousWindow => Some(
            command_view(
                "Restore Previous Window"@,
                "Restores the last saved window snapshot, including tabs and panes."@,
                seq![(SUPER | ALT | SHIFT, "t"@)],
                Scope::Window,
                Menu::Shell,
                None,
            ),
        ),
        ActionView::ActivateWindow(n) => {
            let ordinal = ordinal_of(as_signed(n) + 1);
            Some(
                command_view(
                    "Activate "@ + ordinal + " Window"@,
                    "Activates the "@ + ordinal + " window"@,
                    no_chords(),
                    Scope::Window,
                    Menu::Window,
                    None,
                ),
            )
        },
        ActionView::ActivateWindowRelative(n) => {
            let direction = if n < 0 { "backwards"@ } else { "forwards"@ };
            let ordinal = ordinal_of(abs_of(n as int) + 1);
            if n == -1 {
                Some(
                    command_view(
                        "Previous Window"@,
                        "Switch to previous window"@,
                        seq![(SUPER | SHIFT, "`"@)],
                        Scope::Window,
                        Menu::Window,
                        None,
                    ),
                )
            } else if n == 1 {
                Some(
                    command_view(
                        "Next Window"@,
                        "Switch to next window"@,
                        seq![(SUPER, "`"@)],
                        Scope::Window,
                        Menu::Window,
                        None,
                    ),
                )
            } else {
                Some(
                    command_view(
                        "Activate the "@ + ordinal + " window "@ + direction,
                        "Activates the "@ + ordinal + " window, moving "@ + direction
                            + ". Wraps around to the other end"@,
                        no_chords(),
                        Scope::Window,
                        Menu::Nothing,
                        None,
                    ),
                )
            }
        },
        ActionView::ActivateWindowRelativeNoWrap(n) => {
            let direction = if n < 0 { "backwards"@ } else { "forwards"@ };
            let ordinal = ordinal_of(abs_of(n as int) + 1);
            if n == -1 {
                Some(
                    command_view(
                        "Previous Window (No Wrap)"@,
                        "Switch to previous window"@,
                        no_chords(),
                        Scope::Window,
                        Menu::Window,
                        None,
                    ),
                )
            } else if n == 1 {
                Some(
                    command_view(
                        "Next Window (No Wrap)"@,
                        "Switch to next window"@,
                        no_chords(),
                        Scope::Window,
                        Menu::Window,
                        None,
                    ),
                )
            } else {
                Some(
                    command_view(
                        "Activate the "@ + ordinal + " window "@ + direction,
                        "Activates the "@ + ordinal + " window, moving "@ + direction + "."@,
                        no_chords(),
                        Scope::Window,
                        Menu::Nothing,
                        None,
                    ),
                )
            }
        },
        _ => None,
    }
}

pub open spec fn tab_command(action: ActionView, platform: Platform) -> Option<CommandView>
{
    match action {
        ActionView::ActivateTabRelative(n) => {
            let direction = if n < 0 { "left"@ } else { "right"@ };
            let ordinal = ordinal_of(abs_of(n as int) + 1);
            if n == -1 {
                Some(
                    command_view(
                        "Previous Tab"@,
                        "Switch to previous tab"@,
                        seq![(SUPER | SHIFT, "["@), (CTRL | SHIFT, "Tab"@), (CTRL, "PageUp"@)],
                        Scope::Window,
                        Menu::Window,
                        None,
                    ),
                )
            } else if n == 1 {
                Some(
                    command_view(
                        "Next Tab"@,
                        "Switch to next tab"@,
                        seq![(SUPER | SHIFT, "]"@), (CTRL, "Tab"@), (CTRL, "PageDown"@)],
                        Scope::Window,
                        Menu::Window,
                        None,
                    ),
                )
            } else {
                Some(
                    command_view(
                        "Activate the "@ + ordinal + " tab to the "@ + direction,
                        "Activates the "@ + ordinal + " tab to the "@ + direction
                            + ". Wraps around to the other end"@,
                        no_chords(),
                        Scope::Window,
                        Menu::Nothing,
                        None,
                    ),
                )
            }
        },
        ActionView::ActivateTabRelativeNoWrap(n) => {
            let direction = if n < 0 { "left"@ } else { "right"@ };
            let ordinal = ordinal_of(abs_of(n as int) + 1);
            if n == -1 {
                Some(
                    command_view(
                        "Activate the tab to the left (no wrapping)"@,
                        "Activates the tab to the left. Stopping at the left-most tab"@,
                        no_chords(),
                        Scope::Window,
                        Menu::Nothing,
                        None,
                    ),
                )
            } else if n == 1 {
                Some(
                    command_view(
                        "Activate the tab to the right (no wrapping)"@,
                        "Activates the tab to the right. Stopping at the right-most tab"@,
                        no_chords(),
                        Scope::Window,
                        Menu::Nothing,
                        None,
                    ),
                )
            } else {
                Some(
                    command_view(
                        "Activate the "@ + ordinal + " tab to the "@ + direction,
                        "Activates the "@ + ordinal + " tab to the "@ + direction,
                        no_chords(),
                        Scope::Window,
                        Menu::Nothing,
                        None,
                    ),
                )
            }
        },
        ActionView::ReloadConfiguration => Some(
            command_view(
                "Reload Configuration"@,
                "Reloads the configuration file."@,
                seq![(SUPER | SHIFT, "r"@)],
                Scope::Nothing,
                Menu::Nothing,
                None,
            ),
        ),
        ActionView::QuitApplication => Some(
            command_view(
                "Quit Kaku"@,
                "Quits Kaku"@,
                seq![(SUPER, "q"@)],
                Scope::Nothing,
                Menu::Kaku,
                None,
            ),
        ),
        ActionView::MoveTabToNewWindow => Some(
            command_view(
                "Move Tab to New Window"@,
                "Move the current tab, and every pane in it, to a new window"@,
                no_chords(),
                Scope::Tab,
                Menu::Window,
                None,
            ),
        ),
        ActionView::MoveTabRelative(n) => {
            let direction = if n < 0 { "left"@ } else { "right"@ };
            let amount = decimal_int(abs_of(n as int));
            if n == -1 {
                Some(
                    command_view(
                        "Move Tab Left"@,
                        "Move current tab left"@,
                        seq![(CTRL | SHIFT, "PageUp"@)],
                        Scope::Tab,
                        Menu::Window,
                        None,
                    ),
                )
            } else if n == 1 {
                Some(
                    command_view(
                        "Move Tab Right"@,
                        "Move current tab right"@,
                        seq![(CTRL | SHIFT, "PageDown"@)],
                        Scope::Tab,
                        Menu::Window,
                        None,
                    ),
                )
            } else {
                Some(
                    command_view(
                        "Move tab "@ + amount + " place(s) to the "@ + direction,
                        "Rearranges the tabs so that the current tab moves "@ + amount
                            + " place(s) to the "@ + direction,
                        no_chords(),
                        Scope::Tab,
                        Menu::Nothing,
                        None,
                    ),
                )
            }
        },
        ActionView::MoveTab(n) => Some(
            command_view(
                "Move tab to index "@ + decimal((n + 1) as nat),
                "Rearranges the tabs so that the current tab moves to position "@ + decimal(
                    (n + 1) as nat,
                ),
                no_chords(),
                Scope::Tab,
                Menu::Nothing,
                None,
            ),
        ),
        _ => None,
    }
}

pub open spec fn scroll_command(action: ActionView, platform: Platform) -> Option<CommandView>
{
    match action {
        ActionView::ScrollByPage(PageAmountView::OneUp) => Some(
            command_view(
                "Scroll Up One Page"@,
                "Scrolls the viewport up by 1 page"@,
                seq![(SHIFT, "PageUp"@)],
                Scope::Pane,
                Menu::Nothing,
                None,
            ),
        ),
        ActionView::ScrollByPage(PageAmountView::OneDown) => Some(
            command_view(
                "Scroll Down One Page"@,
                "Scrolls the viewport down by 1 page"@,
                seq![(SHIFT, "PageDown"@)],
                Scope::Pane,
                Menu::Nothing,
                None,
            ),
        ),
        ActionView::ScrollByPage(PageAmountView::Up(amount)) => Some(
            command_view(
                "Scroll Up "@ + amount + " Page(s)"@,
                "Scrolls the viewport up by "@ + amount + " pages"@,
                no_chords(),
                Scope::Pane,
                Menu::Nothing,
                None,
            ),
        ),
        ActionView::ScrollByPage(PageAmountView::Down(amount)) => Some(
            command_view(
                "Scroll Down "@ + amount + " Page(s)"@,
                "Scrolls the viewport down by "@ + amount + " pages"@,
                no_chords(),
                Scope::Pane,
                Menu::Nothing,
                None,
            ),
        ),
        ActionView::ScrollByLine(n) => {
            let direction = if n < 0 { "up"@ } else { "down"@ };
            let amount = decimal_int(abs_of(n as int));
            Some(
                command_view(
                    "Scroll "@ + direction + " "@ + amount + " line(s)"@,
                    "Scrolls the viewport "@ + direction + " by "@ + amount + " line(s)"@,
                    no_chords(),
                    Scope::Pane,
                    Menu::Nothing,
                    None,
                ),
            )
        },
        ActionView::ScrollToPrompt(n) => {
            let direction = if n < 0 { "up"@ } else { "down"@ };
            let amount = decimal_int(abs_of(n as int));
            let ordinal = ordinal_of(abs_of(n as int));
            Some(
                command_view(
                    "Scroll "@ + direction + " "@ + amount + " prompt(s)"@,
                    "Scrolls the viewport "@ + direction + " to the "@ + ordinal
                        + " semantic prompt zone in that direction"@,
                    no_chords(),
                    Scope::Pane,
                    Menu::Nothing,
                    None,
                ),
            )
        },
        ActionView::ScrollByCurrentEventWheelDelta => Some(
            command_view(
                "Scrolls based on the mouse wheel position in the current mouse event"@,
                "Scrolls based on the mouse wheel position in the current mouse event"@,
                no_chords(),
                Scope::Pane,
                Menu::Nothing,
                None,
            ),
        ),
        ActionView::ScrollToBottom => Some(
            command_view(
                "Scroll to Bottom"@,
                "Scroll to bottom of output"@,
                seq![(SUPER, "End"@)],
                Scope::Pane,
                Menu::View,
                None,
            ),
        ),
        ActionView::ScrollToTop => Some(
            command_view(
                "Scroll to Top"@,
                "Scroll to top of output"@,
                seq![(SUPER, "Home"@)],
                Scope::Pane,
                Menu::View,
                None,
            ),
        ),
        _ => None,
    }
}

pub open spec fn split_or_resize_command(
    action: ActionView,
    platform: Platform,
) -> Option<CommandView>
{
    match action {
        ActionView::ActivateCopyMode => Some(
            command_view(
                "Activate Copy Mode"@,
                "Enter mouse-less copy mode to select text using only the keyboard"@,
                seq![(CTRL | SHIFT, "x"@)],
                Scope::Pane,
                Menu::Nothing,
                None,
            ),
        ),
        ActionView::SplitVertical(command) => {
            let label = labelled(action, "Split Pane Top/Bottom"@);
            if matches!(command.domain, DomainView::CurrentPaneDomain) {
                Some(
                    command_view(
                        label,
                        "Split pane horizontally"@,
                        seq![(SUPER | SHIFT, "d"@)],
                        Scope::Pane,
                        Menu::Shell,
                        None,
                    ),
                )
            } else {
                Some(
                    command_view(
                        label,
                        "Split the current pane into top and bottom panes, by spawning the default program into the bottom pane"@,
                        no_chords(),
                        Scope::Pane,
                        Menu::Nothing,
                        None,
                    ),
                )
            }
        },
        ActionView::SplitHorizontal(command) => {
            let label = labelled(action, "Split Pane Left/Right"@);
            if matches!(command.domain, DomainView::CurrentPaneDomain) {
                Some(
                    command_view(
                        label,
                        "Split pane vertically"@,
                        seq![(SUPER, "d"@)],
                        Scope::Pane,
                        Menu::Shell,
                        None,
                    ),
                )
            } else {
                Some(
                    command_view(
                        label,
                        "Split the current pane into left and right panes, by spawning the default program into the right pane"@,
                        no_chords(),
                        Scope::Pane,
                        Menu::Nothing,
                        None,
                    ),
                )
            }
        },
        ActionView::AdjustPaneSize(PaneDirection::Left, amount) => Some(
            command_view(
                "Resize Split Left"@,
                "Move the current split divider left (step: "@ + decimal(
                    amount as nat,
                ) + " cells)"@,
                seq![(SUPER | CTRL, "LeftArrow"@)],
                Scope::Pane,
                Menu::Nothing,
                None,
            ),
        ),
        ActionView::AdjustPaneSize(PaneDirection::Right, amount) => Some(
            command_view(
                "Resize Split Right"@,
                "Move the current split divider right (step: "@ + decimal(
                    amount as nat,
                ) + " cells)"@,
                seq![(SUPER | CTRL, "RightArrow"@)],
                Scope::Pane,
                Menu::Nothing,
                None,
            ),
        ),
        ActionView::AdjustPaneSize(PaneDirection::Up, amount) => Some(
            command_view(
                "Resize Split Up"@,
                "Move the current split divider up (step: "@ + decimal(amount as nat) + " cells)"@,
                seq![(SUPER | CTRL, "UpArrow"@)],
                Scope::Pane,
                Menu::Nothing,
                None,
            ),
        ),
        ActionView::AdjustPaneSize(PaneDirection::Down, amount) => Some(
            command_view(
                "Resize Split Down"@,
                "Move the current split divider down (step: "@ + decimal(
                    amount as nat,
                ) + " cells)"@,
                seq![(SUPER | CTRL, "DownArrow"@)],
                Scope::Pane,
                Menu::Nothing,
                None,
            ),
        ),
        ActionView::AdjustPaneSize(PaneDirection::Next | PaneDirection::Prev, _) => None,
        _ => None,
    }
}

pub open spec fn pane_focus_command(action: ActionView, platform: Platform) -> Option<CommandView>
{
    match action {
        ActionView::ActivatePaneDirection(PaneDirection::Next | PaneDirection::Prev) => None,
        ActionView::ActivatePaneDirection(PaneDirection::Left) => Some(
            command_view(
                "Activate Pane Left"@,
                "Activates the pane to the left of the current pane"@,
                seq![(SUPER | ALT, "LeftArrow"@)],
                Scope::Pane,
                Menu::Nothing,
                None,
            ),
        ),
        ActionView::ActivatePaneDirection(PaneDirection::Right) => Some(
            command_view(
                "Activate Pane Right"@,
                "Activates the pane to the right of the current pane"@,
                seq![(SUPER | ALT, "RightArrow"@)],
                Scope::Pane,
                Menu::Nothing,
                None,
            ),
        ),
        ActionView::ActivatePaneDirection(PaneDirection::Up) => Some(
            command_view(
                "Activate Pane Up"@,
                "Activates the pane to the top of the current pane"@,
                seq![(SUPER | ALT, "UpArrow"@)],
                Scope::Pane,
                Menu::Nothing,
                None,
            ),
        ),
        ActionView::ActivatePaneDirection(PaneDirection::Down) => Some(
            command_view(
                "Activate Pane Down"@,
                "Activates the pane to the bottom of the current pane"@,
                seq![(SUPER | ALT, "DownArrow"@)],
                Scope::Pane,
                Menu::Nothing,
                None,
            ),
        ),
        _ => None,
    }
}

pub open spec fn navigation_or_domain_command(
    action: ActionView,
    platform: Platform,
) -> Option<CommandView>
{
    match action {
        ActionView::TogglePaneZoomState => Some(
            command_view(
                "Zoom Pane"@,
                "Toggle pane zoom"@,
                seq![(SUPER | SHIFT, "Enter"@)],
                Scope::Pane,
                Menu::Window,
                None,
            ),
        ),
        ActionView::ActivateLastTab => Some(
            command_view(
                "Last Active Tab"@,
                "Switch to last active tab"@,
                seq![(SUPER | SHIFT, "t"@)],
                Scope::Window,
                Menu::Window,
                None,
            ),
        ),
        ActionView::ClearKeyTableStack => Some(
            command_view(
                "Clear the key table stack"@,
                "Removes all entries from the stack"@,
                no_chords(),
                Scope::Window,
                Menu::Nothing,
                None,
            ),
        ),
        ActionView::OpenLinkAtMouseCursor => Some(
            command_view(
                "Open link at mouse cursor"@,
                "If there is no link under the mouse cursor, has no effect."@,
                no_chords(),
                Scope::Pane,
                Menu::Nothing,
                None,
            ),
        ),
        ActionView::ShowLauncherArgs(_) | ActionView::ShowLauncher => Some(
            command_view(
                "Launcher"@,
                "Open command launcher"@,
                no_chords(),
                Scope::Window,
                Menu::Nothing,
                None,
            ),
        ),
        ActionView::ShowTabNavigator => Some(
            command_view(
                "Tab Navigator"@,
                "Interactive tab switcher"@,
                seq![(SUPER | SHIFT, "o"@)],
                Scope::Window,
                Menu::Window,
                None,
            ),
        ),
        ActionView::DetachDomain(DomainView::CurrentPaneDomain) => Some(
            command_view(
                "Detach the domain of the active pane"@,
                "Detaches (disconnects from) the domain of the active pane"@,
                no_chords(),
                Scope::Pane,
                Menu::Nothing,
                None,
            ),
        ),
        ActionView::DetachDomain(DomainView::DefaultDomain) => Some(
            command_view(
                "Detach the default domain"@,
                "Detaches (disconnects from) the default domain"@,
                no_chords(),
                Scope::Pane,
                Menu::Nothing,
                None,
            ),
        ),
        ActionView::DetachDomain(DomainView::DomainName(name)) => Some(
            command_view(
                "Detach `"@ + name + "`"@,
                "Disconnect from `"@ + name + "` domain"@,
                no_chords(),
                Scope::Pane,
                Menu::Shell,
                None,
            ),
        ),
        ActionView::DetachDomain(DomainView::DomainId(id)) => Some(
            command_view(
                "Detach the domain with id "@ + decimal(id as nat),
                "Detaches (disconnects from) the domain with id "@ + decimal(id as nat),
                no_chords(),
                Scope::Pane,
                Menu::Shell,
                None,
            ),
        ),
        _ => None,
    }
}

pub open spec fn text_command(action: ActionView, platform: Platform) -> Option<CommandView>
{
    match action {
        ActionView::OpenUri(uri) => {
            if uri == "https://github.com/tw93/Kaku"@ {
                Some(
                    command_view(
                        "Star on GitHub"@,
                        "Star Kaku on GitHub"@,
                        no_chords(),
                        Scope::Nothing,
                        Menu::Help,
                        None,
                    ),
                )
            } else if uri == "https://github.com/tw93/Kaku/discussions/"@ {
                Some(
                    command_view(
                        "Discuss on GitHub"@,
                        "Visit Kaku's GitHub discussion"@,
                        no_chords(),
                        Scope::Nothing,
                        Menu::Nothing,
                        None,
                    ),
                )
            } else if uri == "https://github.com/tw93/Kaku/issues/"@ {
                Some(
                    command_view(
                        "Report Issue"@,
                        "Submit bug report or feature request"@,
                        no_chords(),
                        Scope::Nothing,
                        Menu::Help,
                        None,
                    ),
                )
            } else {
                Some(
                    command_view(
                        "Open "@ + uri + " in your browser"@,
                        "Open "@ + uri + " in your browser"@,
                        no_chords(),
                        Scope::Nothing,
                        Menu::Nothing,
                        None,
                    ),
                )
            }
        },
        ActionView::SendString(text) => Some(
            command_view(
                "Sends `"@ + text + "` to the active pane, as though you typed it"@,
                "Sends `"@ + text + "` to the active pane, as though you typed it"@,
                no_chords(),
                Scope::Nothing,
                Menu::Nothing,
                None,
            ),
        ),
        ActionView::SendStringIfNotAltScreen(text) => {
            if text == seq![UNDO_CHAR] && platform == Platform::MacOs {
                Some(
                    command_view(
                        "Undo at the shell prompt"@,
                        "Writes the given bytes to the pane only when the alt screen is inactive. Used to forward Cmd+Z to the shell's line-editor undo (zsh ZLE / bash readline) without interfering with full-screen TUI apps like vim."@,
                        seq![(SUPER, "z"@)],
                        Scope::Nothing,
                        Menu::Nothing,
                        None,
                    ),
                )
            } else if text == seq![UNDO_CHAR] {
                Some(
                    command_view(
                        "Undo at the shell prompt"@,
                        "Writes the given bytes to the pane only when the alt screen is inactive. Used to forward Cmd+Z to the shell's line-editor undo (zsh ZLE / bash readline) without interfering with full-screen TUI apps like vim."@,
                        no_chords(),
                        Scope::Nothing,
                        Menu::Nothing,
                        None,
                    ),
                )
            } else {
                Some(
                    command_view(
                        "Sends `"@ + text + "` to the pane (normal screen only)"@,
                        "Writes the given bytes to the pane only when the alt screen is inactive. Used to forward Cmd+Z to the shell's line-editor undo (zsh ZLE / bash readline) without interfering with full-screen TUI apps like vim."@,
                        no_chords(),
                        Scope::Nothing,
                        Menu::Nothing,
                        None,
                    ),
                )
            }
        },
        ActionView::SendKey(key) => Some(
            command_view(
                "Sends "@ + key + " to the active pane, as though you typed it"@,
                "Sends "@ + key + " to the active pane, as though you typed it"@,
                no_chords(),
                Scope::Nothing,
                Menu::Nothing,
                None,
            ),
        ),
        ActionView::Nop => Some(
            command_view(
                "Does nothing"@,
                "Has no effect"@,
                no_chords(),
                Scope::Nothing,
                Menu::Nothing,
                None,
            ),
        ),
        _ => None,
    }
}

pub open spec fn selection_command(action: ActionView, platform: Platform) -> Option<CommandView>
{
    match action {
        ActionView::DisableDefaultAssignment | ActionView::ToggleCurrentTabPanesInputBroadcast
        | ActionView::ToggleAllPanesInputBroadcast => None,
        ActionView::SelectTextAtMouseCursor(mode) => Some(
            command_view(
                "Selects text at the mouse cursor location using "@ + mode,
                "Selects text at the mouse cursor location using "@ + mode,
                no_chords(),
                Scope::Nothing,
                Menu::Nothing,
                None,
            ),
        ),
        ActionView::ExtendSelectionToMouseCursor(mode) => Some(
            command_view(
                "Extends the selection text to the mouse cursor location using "@ + mode,
                "Extends the selection text to the mouse cursor location using "@ + mode,
                no_chords(),
                Scope::Nothing,
                Menu::Nothing,
                None,
            ),
        ),
        ActionView::ClearSelection => Some(
            command_view(
                "Clears the selection in the current pane"@,
                "Clears the selection in the current pane"@,
                no_chords(),
                Scope::Nothing,
                Menu::Nothing,
                None,
            ),
        ),
        ActionView::CompleteSelection(destination) => Some(
            command_view(
                "Completes selection; copies if copy_on_select is enabled"@,
                "Completes text selection using the mouse. If copy_on_select is enabled, copy to "@
                    + destination_text(destination),
                no_chords(),
                Scope::Nothing,
                Menu::Nothing,
                None,
            ),
        ),
        ActionView::CompleteSelectionOrOpenLinkAtMouseCursor(destination) => Some(
            command_view(
                "Open a URL or complete selection with optional copy to "@ + destination_text(
                    destination,
                ),
                "If the mouse is over a link, open it, otherwise, completes text selection using the mouse. If copy_on_select is enabled, copy to "@
                    + destination_text(destination),
                no_chords(),
                Scope::Nothing,
                Menu::Nothing,
                None,
            ),
        ),
        ActionView::StartWindowDrag => Some(
            command_view(
                "Requests a window drag operation from the window environment"@,
                "Requests a window drag operation from the window environment"@,
                no_chords(),
                Scope::Nothing,
                Menu::Nothing,
                None,
            ),
        ),
        _ => None,
    }
}

pub open spec fn workspace_command(action: ActionView, platform: Platform) -> Option<CommandView>
    decreases action, 0nat,
{
    match action {
        ActionView::Multiple(parts) => Some(
            command_view(
                briefs_of(parts, platform, parts.len()),
                "Performs multiple nested actions"@,
                no_chords(),
                Scope::Pane,
                Menu::Nothing,
                None,
            ),
        ),
        ActionView::SwitchToWorkspace { name: None, spawn: None } => Some(
            command_view(
                "Spawn the default program into a new workspace and switch to it"@,
                "Spawn the default program into a new workspace and switch to it"@,
                no_chords(),
                Scope::Nothing,
                Menu::Nothing,
                None,
            ),
        ),
        ActionView::SwitchToWorkspace { name: Some(name), spawn: None } => Some(
            command_view(
                "Switch to workspace `"@ + name
                    + "`, spawn the default program if that workspace doesn't already exist"@,
                "Switch to workspace `"@ + name
                    + "`, spawn the default program if that workspace doesn't already exist"@,
                no_chords(),
                Scope::Nothing,
                Menu::Nothing,
                None,
            ),
        ),
        ActionView::SwitchToWorkspace { name: Some(name), spawn: Some(prog) } => Some(
            command_view(
                "Switch to workspace `"@ + name + "`, spawn "@ + prog.summary
                    + " if that workspace doesn't already exist"@,
                "Switch to workspace `"@ + name + "`, spawn "@ + prog.summary
                    + " if that workspace doesn't already exist"@,
                no_chords(),
                Scope::Nothing,
                Menu::Nothing,
                None,
            ),
        ),
        ActionView::SwitchToWorkspace { name: None, spawn: Some(prog) } => Some(
            command_view(
                "Spawn the "@ + prog.summary + " into a new workspace and switch to it"@,
                "Spawn the "@ + prog.summary + " into a new workspace and switch to it"@,
                no_chords(),
                Scope::Nothing,
                Menu::Nothing,
                None,
            ),
        ),
        ActionView::SwitchWorkspaceRelative(n) => {
            let direction = if n < 0 { "previous"@ } else { "next"@ };
            let ordinal = ordinal_of(abs_of(n as int));
            Some(
                command_view(
                    "Switch to "@ + ordinal + " "@ + direction + " workspace"@,
                    "Switch to the "@ + ordinal + " "@ + direction
                        + " workspace, ordered lexicographically by workspace name"@,
                    no_chords(),
                    Scope::Pane,
                    Menu::Nothing,
                    None,
                ),
            )
        },
        ActionView::ActivateKeyTable { name, options: _ } => Some(
            command_view(
                "Activate key table `"@ + name + "`"@,
                "Activate key table `"@ + name + "`"@,
                no_chords(),
                Scope::Pane,
                Menu::Nothing,
                None,
            ),
        ),
        ActionView::PopKeyTable => Some(
            command_view(
                "Pop the current key table"@,
                "Pop the current key table"@,
                no_chords(),
                Scope::Pane,
                Menu::Nothing,
                None,
            ),
        ),
        ActionView::AttachDomain(name) => Some(
            command_view(
                "Attach domain `"@ + name + "`"@,
                "Attach domain `"@ + name + "`"@,
                no_chords(),
                Scope::Pane,
                Menu::Shell,
                None,
            ),
        ),
        _ => None,
    }
}

pub open spec fn pane_state_command(action: ActionView, platform: Platform) -> Option<CommandView>
{
    match action {
        ActionView::CopyMode(mode) => Some(
            command_view(mode, ""@, no_chords(), Scope::Pane, Menu::Nothing, None),
        ),
        ActionView::RotatePanes(direction) => Some(
            command_view(
                "Rotate panes "@ + rotation_text(direction),
                "Rotate panes "@ + rotation_text(direction),
                no_chords(),
                Scope::Pane,
                Menu::Nothing,
                None,
            ),
        ),
        ActionView::TogglePaneSplitDirection => Some(
            command_view(
                "Toggle Split Direction"@,
                "Toggle the split direction between horizontal and vertical"@,
                seq![(SUPER | SHIFT, "s"@)],
                Scope::Pane,
                Menu::Nothing,
                None,
            ),
        ),
        ActionView::SplitPane(split) => {
            let label = labelled(
                action,
                "Split the current pane "@ + direction_text(split.direction),
            );
            Some(
                command_view(
                    label,
                    "Split the current pane "@ + direction_text(split.direction),
                    no_chords(),
                    Scope::Pane,
                    Menu::Nothing,
                    icon_of(split.direction),
                ),
            )
        },
        ActionView::ResetTerminal => Some(
            command_view(
                "Reset the terminal emulation state in the current pane"@,
                "Reset the terminal emulation state in the current pane"@,
                no_chords(),
                Scope::Pane,
                Menu::Nothing,
                None,
            ),
        ),
        ActionView::ActivateCommandPalette => Some(
            command_view(
                "Command Palette"@,
                "Open command palette"@,
                seq![(SUPER | SHIFT, "p"@)],
                Scope::Pane,
                Menu::Shell,
                None,
            ),
        ),
        _ => None,
    }
}

/// The command that describes an action. Actions without one are not offered
/// in the palette or the menubar.
pub open spec fn command_of(action: ActionView, platform: Platform) -> Option<CommandView>
    decreases action, 1nat,
{
    match action {
        ActionView::PasteFrom(..) | ActionView::CopyTextTo { .. } | ActionView::CopyTo(..)
        | ActionView::ToggleFullScreen | ActionView::CenterWindow | ActionView::MaximizeWindow
        | ActionView::ToggleAlwaysOnTop | ActionView::ToggleAlwaysOnBottom
        | ActionView::SetWindowLevel(..) | ActionView::Hide | ActionView::Show
        | ActionView::HideApplication | ActionView::SpawnWindow => clipboard_or_window_command(
            action,
            platform,
        ),
        ActionView::ClearScrollback(..) | ActionView::Search(..) | ActionView::ShowDebugOverlay
        | ActionView::InputSelector(..) | ActionView::Confirmation(..)
        | ActionView::PromptInputLine(..) | ActionView::QuickSelect
        | ActionView::QuickSelectArgs(..) | ActionView::CharSelect(..)
        | ActionView::PaneSelect(..) => screen_command(action, platform),
        ActionView::DecreaseFontSize | ActionView::IncreaseFontSize | ActionView::ResetFontSize
        | ActionView::ResetFontAndWindowSize | ActionView::SpawnTab(..)
        | ActionView::SpawnCommandInNewTab(..) | ActionView::SpawnCommandInNewWindow(..) => {
            font_or_spawn_command(action, platform)
        },
        ActionView::ActivateTab(..) | ActionView::ActivatePaneByIndex(..)
        | ActionView::SetPaneZoomState(..) | ActionView::SetPaneEncoding(..)
        | ActionView::EmitEvent(..) => direct_target_command(action, platform),
        ActionView::CloseCurrentTab { .. } | ActionView::CloseCurrentPane { .. }
        | ActionView::ReopenLastClosedTab | ActionView::RestorePreviousWindow
        | ActionView::ActivateWindow(..) | ActionView::ActivateWindowRelative(..)
        | ActionView::ActivateWindowRelativeNoWrap(..) => close_or_window_command(action, platform),
        ActionView::ActivateTabRelative(..) | ActionView::ActivateTabRelativeNoWrap(..)
        | ActionView::ReloadConfiguration | ActionView::QuitApplication
        | ActionView::MoveTabToNewWindow | ActionView::MoveTabRelative(..)
        | ActionView::MoveTab(..) => tab_command(action, platform),
        ActionView::ScrollByPage(..) | ActionView::ScrollByLine(..)
        | ActionView::ScrollToPrompt(..) | ActionView::ScrollByCurrentEventWheelDelta
        | ActionView::ScrollToBottom | ActionView::ScrollToTop => scroll_command(action, platform),
        ActionView::ActivateCopyMode | ActionView::SplitVertical(..)
        | ActionView::SplitHorizontal(..) | ActionView::AdjustPaneSize(..) => {
            split_or_resize_command(action, platform)
        },
        ActionView::ActivatePaneDirection(..) => pane_focus_command(action, platform),
        ActionView::TogglePaneZoomState | ActionView::ActivateLastTab
        | ActionView::ClearKeyTableStack | ActionView::OpenLinkAtMouseCursor
        | ActionView::ShowLauncherArgs(..) | ActionView::ShowLauncher
        | ActionView::ShowTabNavigator | ActionView::DetachDomain(..) => {
            navigation_or_domain_command(action, platform)
        },
        ActionView::OpenUri(..) | ActionView::SendString(..)
        | ActionView::SendStringIfNotAltScreen(..) | ActionView::SendKey(..) | ActionView::Nop => {
            text_command(action, platform)
        },
        ActionView::DisableDefaultAssignment | ActionView::ToggleCurrentTabPanesInputBroadcast
        | ActionView::ToggleAllPanesInputBroadcast | ActionView::SelectTextAtMouseCursor(..)
        | ActionView::ExtendSelectionToMouseCursor(..) | ActionView::ClearSelection
        | ActionView::CompleteSelection(..)
        | ActionView::CompleteSelectionOrOpenLinkAtMouseCursor(..) | ActionView::StartWindowDrag => {
            selection_command(action, platform)
        },
        ActionView::Multiple(..) | ActionView::SwitchToWorkspace { .. }
        | ActionView::SwitchWorkspaceRelative(..) | ActionView::ActivateKeyTable { .. }
        | ActionView::PopKeyTable | ActionView::AttachDomain(..) => workspace_command(
            action,
            platform,
        ),
        ActionView::CopyMode(..) | ActionView::RotatePanes(..)
        | ActionView::TogglePaneSplitDirection | ActionView::SplitPane(..)
        | ActionView::ResetTerminal | ActionView::ActivateCommandPalette => pane_state_command(
            action,
            platform,
        ),
    }
}

fn multiple_brief(parts: &Vec<KeyAssignment>, platform: Platform) -> (r: String)
    ensures
        r@ == briefs_of(action_views(parts@), platform, parts@.len()),
    decreases parts, 2nat,
{
    let mut brief = String::new();
    let mut i: usize = 0;
    while i < parts.len()
        invariant
            i <= parts.len(),
            brief@ == briefs_of(action_views(parts@), platform, i as nat),
        decreases parts.len() - i,
    {
        assert(action_views(parts@)[i as int] == parts@[i as int]@);
        if !brief.as_str().is_empty() {
            brief.append(", ");
        }
        match derive_command_from_key_assignment(&parts[i], platform) {
            Some(cmd) => brief.append(cmd.brief.as_str()),
            None => brief.append(undescribed_name(&parts[i]).as_str()),
        }
        i += 1;
    }
    brief
}

fn describe_clipboard_or_window(
    action: &KeyAssignment,
    platform: Platform,
) -> (r: Option<CommandDef>)
    requires
        matches!(
            action,
            KeyAssignment::PasteFrom(..) | KeyAssignment::CopyTextTo { .. }
                | KeyAssignment::CopyTo(..) | KeyAssignment::ToggleFullScreen
                | KeyAssignment::CenterWindow | KeyAssignment::MaximizeWindow
                | KeyAssignment::ToggleAlwaysOnTop | KeyAssignment::ToggleAlwaysOnBottom
                | KeyAssignment::SetWindowLevel(..) | KeyAssignment::Hide | KeyAssignment::Show
                | KeyAssignment::HideApplication | KeyAssignment::SpawnWindow,
        ),
    ensures
        opt_command(r) == clipboard_or_window_command(action@, platform),
    decreases action, 0nat,
{
    match action {
        KeyAssignment::PasteFrom(ClipboardPasteSource::PrimarySelection) => Some(
            CommandDef::describe(
                "Paste primary selection",
                "Pastes text from the primary selection",
                chords1(SHIFT, "Insert"),
                Scope::Pane,
                Menu::Nothing,
                None,
            ),
        ),
        KeyAssignment::CopyTextTo {
            text: _,
            destination: ClipboardCopyDestination::PrimarySelection,
        }
        | KeyAssignment::CopyTo(ClipboardCopyDestination::PrimarySelection) => Some(
            CommandDef::describe(
                "Copy to primary selection",
                "Copies text to the primary selection",
                chords1(CTRL, "Insert"),
                Scope::Pane,
                Menu::Nothing,
                None,
            ),
        ),
        KeyAssignment::CopyTextTo { text: _, destination: ClipboardCopyDestination::Clipboard }
        | KeyAssignment::CopyTo(ClipboardCopyDestination::Clipboard) => Some(
            CommandDef::describe(
                "Copy to clipboard",
                "Copies text to the clipboard",
                chords2(SUPER, "c", NONE, "Copy"),
                Scope::Pane,
                Menu::Edit,
                None,
            ),
        ),
        KeyAssignment::CopyTextTo {
            text: _,
            destination: ClipboardCopyDestination::ClipboardAndPrimarySelection,
        }
        | KeyAssignment::CopyTo(ClipboardCopyDestination::ClipboardAndPrimarySelection) => Some(
            CommandDef::describe(
                "Copy to clipboard and primary selection",
                "Copies text to the clipboard and the primary selection",
                chords1(CTRL, "Insert"),
                Scope::Pane,
                Menu::Nothing,
                None,
            ),
        ),
        KeyAssignment::PasteFrom(ClipboardPasteSource::Clipboard) => Some(
            CommandDef::describe(
                "Paste from clipboard",
                "Pastes text from the clipboard",
                chords2(SUPER, "v", NONE, "Paste"),
                Scope::Pane,
                Menu::Edit,
                None,
            ),
        ),
        KeyAssignment::ToggleFullScreen => Some(
            CommandDef::describe(
                "Toggle Full Screen",
                "Toggle full screen mode",
                chords1(CTRL | SUPER, "f"),
                Scope::Window,
                Menu::Window,
                None,
            ),
        ),
        KeyAssignment::CenterWindow => Some(
            CommandDef::describe(
                "Center",
                "Center the current window on the active display",
                chords0(),
                Scope::Window,
                Menu::Window,
                None,
            ),
        ),
        KeyAssignment::MaximizeWindow => Some(
            CommandDef::describe(
                "Fill",
                "Zoom the window to fill the active display (AppKit zoom)",
                chords0(),
                Scope::Window,
                Menu::Window,
                None,
            ),
        ),
        KeyAssignment::ToggleAlwaysOnTop => Some(
            CommandDef::describe(
                "Always on Top",
                "Keep window above others",
                chords1(SUPER | SHIFT, "UpArrow"),
                Scope::Window,
                Menu::Window,
                None,
            ),
        ),
        KeyAssignment::ToggleAlwaysOnBottom => Some(
            CommandDef::describe(
                "Always on Bottom",
                "Keep window behind others",
                chords0(),
                Scope::Window,
                Menu::Nothing,
                None,
            ),
        ),
        KeyAssignment::SetWindowLevel(WindowLevel::AlwaysOnTop) => Some(
            CommandDef::describe(
                "Always on Top",
                "Set the window level to be on top of other windows.",
                chords0(),
                Scope::Window,
                Menu::Nothing,
                None,
            ),
        ),
        KeyAssignment::SetWindowLevel(WindowLevel::Normal) => Some(
            CommandDef::describe(
                "Normal",
                "Set window level to normal",
                chords0(),
                Scope::Window,
                Menu::Nothing,
                None,
            ),
        ),
        KeyAssignment::SetWindowLevel(WindowLevel::AlwaysOnBottom) => Some(
            CommandDef::describe(
                "Always on Bottom",
                "Set window to remain behind all other windows.",
                chords0(),
                Scope::Window,
                Menu::Nothing,
                None,
            ),
        ),
        KeyAssignment::Hide => Some(
            CommandDef::describe(
                "Minimize",
                "Minimize current window",
                chords1(SUPER, "m"),
                Scope::Window,
                Menu::Window,
                None,
            ),
        ),
        KeyAssignment::Show => Some(
            CommandDef::describe(
                "Show/Restore Window",
                "Show/Restore the current window",
                chords0(),
                Scope::Window,
                Menu::Nothing,
                None,
            ),
        ),
        KeyAssignment::HideApplication => Some(
            CommandDef::describe(
                "Hide Kaku",
                "Hide all Kaku windows",
                chords1(SUPER, "h"),
                Scope::Nothing,
                Menu::Kaku,
                None,
            ),
        ),
        KeyAssignment::SpawnWindow => Some(
            CommandDef::describe(
                "New Window",
                "Open a new window",
                chords1(SUPER, "n"),
                Scope::Nothing,
                Menu::Shell,
                None,
            ),
        ),
        _ => None,
    }
}

fn describe_screen(action: &KeyAssignment, platform: Platform) -> (r: Option<CommandDef>)
    requires
        matches!(
            action,
            KeyAssignment::ClearScrollback(..) | KeyAssignment::Search(..)
                | KeyAssignment::ShowDebugOverlay | KeyAssignment::InputSelector(..)
                | KeyAssignment::Confirmation(..) | KeyAssignment::PromptInputLine(..)
                | KeyAssignment::QuickSelect | KeyAssignment::QuickSelectArgs(..)
                | KeyAssignment::CharSelect(..) | KeyAssignment::PaneSelect(..),
        ),
    ensures
        opt_command(r) == screen_command(action@, platform),
    decreases action, 0nat,
{
    match action {
        KeyAssignment::ClearScrollback(ScrollbackEraseMode::ScrollbackOnly) => Some(
            CommandDef::describe(
                "Clear Scrollback",
                "Clear scrollback history",
                chords1(SUPER, "k"),
                Scope::Pane,
                Menu::Edit,
                None,
            ),
        ),
        KeyAssignment::ClearScrollback(ScrollbackEraseMode::ScrollbackAndViewport) => Some(
            CommandDef::describe(
                "Clear the scrollback and viewport",
                "Removes all content from the screen and scrollback",
                chords0(),
                Scope::Pane,
                Menu::Nothing,
                None,
            ),
        ),
        KeyAssignment::Search(Pattern::CurrentSelectionOrEmptyString) => Some(
            CommandDef::describe(
                "Search",
                "Search in current pane",
                chords1(SUPER, "f"),
                Scope::Pane,
                Menu::Edit,
                None,
            ),
        ),
        KeyAssignment::Search(Pattern::Explicit(_)) => Some(
            CommandDef::describe(
                "Search pane output",
                "Enters the search mode UI for the current pane",
                chords0(),
                Scope::Pane,
                Menu::Nothing,
                None,
            ),
        ),
        KeyAssignment::ShowDebugOverlay => Some(
            CommandDef::describe(
                "Kaku Doctor",
                "Run kaku doctor in the current pane",
                chords1(CTRL | SHIFT, "l"),
                Scope::Window,
                Menu::Shell,
                None,
            ),
        ),
        KeyAssignment::InputSelector(_) => Some(
            CommandDef::describe(
                "Prompt the user to choose from a list",
                "Activates the selector overlay and wait for input",
                chords0(),
                Scope::Window,
                Menu::Nothing,
                None,
            ),
        ),
        KeyAssignment::Confirmation(_) => Some(
            CommandDef::describe(
                "Prompt the user for confirmation",
                "Activates the confirmation overlay and wait for input",
                chords0(),
                Scope::Window,
                Menu::Nothing,
                None,
            ),
        ),
        KeyAssignment::PromptInputLine(_) => Some(
            CommandDef::describe(
                "Prompt the user for a line of text",
                "Activates the prompt overlay and wait for input",
                chords0(),
                Scope::Window,
                Menu::Nothing,
                None,
            ),
        ),
        KeyAssignment::QuickSelect => Some(
            CommandDef::describe(
                "QuickSelect",
                "Quick selection mode",
                chords1(CTRL | SHIFT, "Space"),
                Scope::Pane,
                Menu::Edit,
                None,
            ),
        ),
        KeyAssignment::QuickSelectArgs(_) => Some(
            CommandDef::describe(
                "Enter QuickSelect mode",
                "Activates the quick selection UI for the current pane",
                chords0(),
                Scope::Pane,
                Menu::Nothing,
                None,
            ),
        ),
        KeyAssignment::CharSelect(_) => Some(
            CommandDef::describe(
                "Enter Emoji / Character selection mode",
                "Activates the character selection UI for the current pane",
                chords1(CTRL | SHIFT, "u"),
                Scope::Pane,
                Menu::Nothing,
                None,
            ),
        ),
        KeyAssignment::PaneSelect(select) => {
            if matches!(select.mode, PaneSelectMode::Activate) {
                Some(
                    CommandDef::describe(
                        "Select Pane",
                        "Select a pane interactively",
                        chords1(SUPER | ALT, "p"),
                        Scope::Pane,
                        Menu::Window,
                        None,
                    ),
                )
            } else if matches!(select.mode, PaneSelectMode::SwapWithActive) {
                Some(
                    CommandDef::describe(
                        "Swap a pane with the active pane",
                        "Activates the pane selection UI",
                        chords0(),
                        Scope::Pane,
                        Menu::Nothing,
                        None,
                    ),
                )
            } else if matches!(select.mode, PaneSelectMode::SwapWithActiveKeepFocus) {
                Some(
                    CommandDef::describe(
                        "Swap a pane with the active pane, keeping focus",
                        "Activates the pane selection UI",
                        chords0(),
                        Scope::Pane,
                        Menu::Nothing,
                        None,
                    ),
                )
            } else if matches!(select.mode, PaneSelectMode::MoveToNewTab) {
                Some(
                    CommandDef::describe(
                        "Move Pane to New Tab",
                        "Move selected pane to a new tab",
                        chords1(SUPER | ALT | SHIFT, "t"),
                        Scope::Pane,
                        Menu::Window,
                        None,
                    ),
                )
            } else {
                Some(
                    CommandDef::describe(
                        "Move Pane to New Window",
                        "Move selected pane to a new window",
                        chords1(SUPER | ALT | SHIFT, "n"),
                        Scope::Pane,
                        Menu::Window,
                        None,
                    ),
                )
            }
        },
        _ => None,
    }
}

fn describe_font_or_spawn(action: &KeyAssignment, platform: Platform) -> (r: Option<CommandDef>)
    requires
        matches!(
            action,
            KeyAssignment::DecreaseFontSize | KeyAssignment::IncreaseFontSize
                | KeyAssignment::ResetFontSize | KeyAssignment::ResetFontAndWindowSize
                | KeyAssignment::SpawnTab(..) | KeyAssignment::SpawnCommandInNewTab(..)
                | KeyAssignment::SpawnCommandInNewWindow(..),
        ),
    ensures
        opt_command(r) == font_or_spawn_command(action@, platform),
    decreases action, 0nat,
{
    match action {
        KeyAssignment::DecreaseFontSize => Some(
            CommandDef::describe(
                "Decrease Font Size",
                "Make text smaller",
                chords2(SUPER, "-", CTRL, "-"),
                Scope::Window,
                Menu::View,
                None,
            ),
        ),
        KeyAssignment::IncreaseFontSize => Some(
            CommandDef::describe(
                "Increase Font Size",
                "Make text larger",
                chords2(SUPER, "=", CTRL, "="),
                Scope::Window,
                Menu::View,
                None,
            ),
        ),
        KeyAssignment::ResetFontSize => Some(
            CommandDef::describe(
                "Reset Font Size",
                "Reset to configured font size",
                chords2(SUPER, "0", CTRL, "0"),
                Scope::Window,
                Menu::View,
                None,
            ),
        ),
        KeyAssignment::ResetFontAndWindowSize => Some(
            CommandDef::describe(
                "Reset Window & Font Size",
                "Reset window and font to defaults",
                chords0(),
                Scope::Window,
                Menu::View,
                None,
            ),
        ),
        KeyAssignment::SpawnTab(SpawnTabDomain::CurrentPaneDomain) => Some(
            CommandDef::describe(
                "New Tab",
                "Open a new tab",
                chords1(SUPER, "t"),
                Scope::Window,
                Menu::Shell,
                None,
            ),
        ),
        KeyAssignment::SpawnTab(SpawnTabDomain::DefaultDomain) => Some(
            CommandDef::describe(
                "New Tab",
                "New tab in default domain",
                chords0(),
                Scope::Window,
                Menu::Shell,
                None,
            ),
        ),
        KeyAssignment::SpawnTab(SpawnTabDomain::DomainName(name)) => Some(
            CommandDef::describe(
                concat2("New Tab ", name.as_str()).as_str(),
                concat3("New tab in ", name.as_str(), " domain").as_str(),
                chords0(),
                Scope::Window,
                Menu::Nothing,
                None,
            ),
        ),
        KeyAssignment::SpawnTab(SpawnTabDomain::DomainId(id)) => Some(
            CommandDef::describe(
                concat2("New Tab Domain ", decimal_of(*id as u128).as_str()).as_str(),
                concat2("New tab in domain ", decimal_of(*id as u128).as_str()).as_str(),
                chords0(),
                Scope::Window,
                Menu::Nothing,
                None,
            ),
        ),
        KeyAssignment::SpawnCommandInNewTab(cmd) => {
            let label = label_string(
                action,
                concat2("Spawn a new Tab with ", cmd.summary.as_str()),
            );
            Some(
                CommandDef::describe(
                    label.as_str(),
                    concat2("Spawn a new Tab with ", cmd.summary.as_str()).as_str(),
                    chords0(),
                    Scope::Nothing,
                    Menu::Nothing,
                    None,
                ),
            )
        },
        KeyAssignment::SpawnCommandInNewWindow(cmd) => {
            let label = label_string(
                action,
                concat2("Spawn a new Window with ", cmd.summary.as_str()),
            );
            Some(
                CommandDef::describe(
                    label.as_str(),
                    concat2("Spawn a new Window with ", cmd.summary.as_str()).as_str(),
                    chords0(),
                    Scope::Nothing,
                    Menu::Nothing,
                    None,
                ),
            )
        },
        _ => None,
    }
}

fn describe_direct_target(action: &KeyAssignment, platform: Platform) -> (r: Option<CommandDef>)
    requires
        matches!(
            action,
            KeyAssignment::ActivateTab(..) | KeyAssignment::ActivatePaneByIndex(..)
                | KeyAssignment::SetPaneZoomState(..) | KeyAssignment::SetPaneEncoding(..)
                | KeyAssignment::EmitEvent(..),
        ),
    ensures
        opt_command(r) == direct_target_command(action@, platform),
    decreases action, 0nat,
{
    match action {
        KeyAssignment::ActivateTab(n) => {
            if *n == -1 {
                Some(
                    CommandDef::describe(
                        "Activate right-most tab",
                        "Activates the tab on the far right",
                        chords1(SUPER, "9"),
                        Scope::Window,
                        Menu::Nothing,
                        None,
                    ),
                )
            } else if *n >= 0 && *n <= 7 {
                Some(
                    CommandDef::describe(
                        concat3(
                            "Activate ",
                            english_ordinal(*n as i128 + 1).as_str(),
                            " Tab",
                        ).as_str(),
                        concat3(
                            "Activates the ",
                            english_ordinal(*n as i128 + 1).as_str(),
                            " tab",
                        ).as_str(),
                        chords1(SUPER, decimal_of(*n as u128 + 1).as_str()),
                        Scope::Window,
                        Menu::Nothing,
                        None,
                    ),
                )
            } else {
                Some(
                    CommandDef::describe(
                        concat3(
                            "Activate ",
                            english_ordinal(*n as i128 + 1).as_str(),
                            " Tab",
                        ).as_str(),
                        concat3(
                            "Activates the ",
                            english_ordinal(*n as i128 + 1).as_str(),
                            " tab",
                        ).as_str(),
                        chords0(),
                        Scope::Window,
                        Menu::Nothing,
                        None,
                    ),
                )
            }
        },
        KeyAssignment::ActivatePaneByIndex(n) => {
            let ordinal = english_ordinal(signed_index(*n));
            Some(
                CommandDef::describe(
                    concat3("Activate ", ordinal.as_str(), " Pane").as_str(),
                    concat3("Activates the ", ordinal.as_str(), " Pane").as_str(),
                    chords0(),
                    Scope::Window,
                    Menu::Nothing,
                    None,
                ),
            )
        },
        KeyAssignment::SetPaneZoomState(true) => Some(
            CommandDef::describe(
                "Zooms the current Pane",
                "Places the current pane into the zoomed state, filling all of the space in the tab",
                chords0(),
                Scope::Window,
                Menu::Nothing,
                None,
            ),
        ),
        KeyAssignment::SetPaneZoomState(false) => Some(
            CommandDef::describe(
                "Un-Zooms the current Pane",
                "Takes the current pane out of the zoomed state",
                chords0(),
                Scope::Window,
                Menu::Nothing,
                None,
            ),
        ),
        KeyAssignment::SetPaneEncoding(encoding) => Some(
            CommandDef::describe(
                concat2("Set Pane Encoding to ", encoding.as_str()).as_str(),
                concat2("Sets the current pane encoding to ", encoding.as_str()).as_str(),
                chords0(),
                Scope::Pane,
                Menu::Nothing,
                None,
            ),
        ),
        KeyAssignment::EmitEvent(name) => {
            if is_internal_emit_event_name(name.as_str()) {
                None
            } else if same(name.as_str(), "kaku-ai-chat") {
                Some(
                    CommandDef::describe(
                        "AI Chat",
                        "Open AI conversation in current terminal pane",
                        chords1(SUPER, "l"),
                        Scope::Pane,
                        Menu::Shell,
                        None,
                    ),
                )
            } else if same(name.as_str(), "run-kaku-ai-config") {
                Some(
                    CommandDef::describe(
                        "AI Config",
                        "Open AI configuration",
                        chords1(SUPER | SHIFT, "a"),
                        Scope::Window,
                        Menu::Shell,
                        None,
                    ),
                )
            } else if same(name.as_str(), "kaku-ai-apply-last-fix") {
                Some(
                    CommandDef::describe(
                        "Apply Last AI Fix",
                        "Apply the latest Kaku Assistant suggestion for the active pane",
                        chords1(SUPER | SHIFT, "e"),
                        Scope::Window,
                        Menu::Shell,
                        None,
                    ),
                )
            } else if same(name.as_str(), "kaku-launch-lazygit") {
                Some(
                    CommandDef::describe(
                        "Lazygit",
                        "Open lazygit",
                        chords1(SUPER | SHIFT, "g"),
                        Scope::Window,
                        Menu::Shell,
                        None,
                    ),
                )
            } else if same(name.as_str(), "kaku-launch-yazi") {
                Some(
                    CommandDef::describe(
                        "Yazi File Manager",
                        "Open Yazi file manager",
                        chords1(SUPER | SHIFT, "y"),
                        Scope::Window,
                        Menu::Shell,
                        None,
                    ),
                )
            } else if same(name.as_str(), "kaku-open-remote-files") {
                Some(
                    CommandDef::describe(
                        "Remote Files",
                        "Open the current SSH domain in a local Yazi tab",
                        chords1(SUPER | SHIFT, "r"),
                        Scope::Window,
                        Menu::Shell,
                        None,
                    ),
                )
            } else {
                Some(
                    CommandDef::describe(
                        concat3("Emit event `", name.as_str(), "`").as_str(),
                        "Emits the named event, causing any associated event handler(s) to trigger",
                        chords0(),
                        Scope::Window,
                        Menu::Nothing,
                        None,
                    ),
                )
            }
        },
        _ => None,
    }
}

fn describe_close_or_window(action: &KeyAssignment, platform: Platform) -> (r: Option<CommandDef>)
    requires
        matches!(
            action,
            KeyAssignment::CloseCurrentTab { .. } | KeyAssignment::CloseCurrentPane { .. }
                | KeyAssignment::ReopenLastClosedTab | KeyAssignment::RestorePreviousWindow
                | KeyAssignment::ActivateWindow(..) | KeyAssignment::ActivateWindowRelative(..)
                | KeyAssignment::ActivateWindowRelativeNoWrap(..),
        ),
    ensures
        opt_command(r) == close_or_window_command(action@, platform),
    decreases action, 0nat,
{
    match action {
        KeyAssignment::CloseCurrentTab { confirm: true } => Some(
            CommandDef::describe(
                "Close Tab",
                "Close current tab using the configured close confirmation policy",
                chords1(SUPER | SHIFT, "w"),
                Scope::Tab,
                Menu::Shell,
                None,
            ),
        ),
        KeyAssignment::CloseCurrentTab { confirm: false } => Some(
            CommandDef::describe(
                "Close Tab",
                "Close current tab without smart confirmation",
                chords0(),
                Scope::Tab,
                Menu::Nothing,
                None,
            ),
        ),
        KeyAssignment::CloseCurrentPane { confirm: true } => Some(
            CommandDef::describe(
                "Close Pane",
                "Close current pane using the configured close confirmation policy",
                chords1(SUPER, "w"),
                Scope::Pane,
                Menu::Shell,
                None,
            ),
        ),
        KeyAssignment::CloseCurrentPane { confirm: false } => Some(
            CommandDef::describe(
                "Close Pane",
                "Close current pane without smart confirmation",
                chords0(),
                Scope::Pane,
                Menu::Nothing,
                None,
            ),
        ),
        KeyAssignment::ReopenLastClosedTab => Some(
            CommandDef::describe(
                "Reopen Last Closed Tab",
                "Reopens the most recently closed tab, restoring its working directory.",
                chords1(SUPER | SHIFT, "t"),
                Scope::Window,
                Menu::Shell,
                None,
            ),
        ),
        KeyAssignment::RestorePreviousWindow => Some(
            CommandDef::describe(
                "Restore Previous Window",
                "Restores the last saved window snapshot, including tabs and panes.",
                chords1(SUPER | ALT | SHIFT, "t"),
                Scope::Window,
                Menu::Shell,
                None,
            ),
        ),
        KeyAssignment::ActivateWindow(n) => {
            let ordinal = english_ordinal(signed_index(*n) + 1);
            Some(
                CommandDef::describe(
                    concat3("Activate ", ordinal.as_str(), " Window").as_str(),
                    concat3("Activates the ", ordinal.as_str(), " window").as_str(),
                    chords0(),
                    Scope::Window,
                    Menu::Window,
                    None,
                ),
            )
        },
        KeyAssignment::ActivateWindowRelative(n) => {
            let direction = if *n < 0 { "backwards" } else { "forwards" };
            let ordinal = english_ordinal(magnitude(*n) + 1);
            if *n == -1 {
                Some(
                    CommandDef::describe(
                        "Previous Window",
                        "Switch to previous window",
                        chords1(SUPER | SHIFT, "`"),
                        Scope::Window,
                        Menu::Window,
                        None,
                    ),
                )
            } else if *n == 1 {
                Some(
                    CommandDef::describe(
                        "Next Window",
                        "Switch to next window",
                        chords1(SUPER, "`"),
                        Scope::Window,
                        Menu::Window,
                        None,
                    ),
                )
            } else {
                Some(
                    CommandDef::describe(
                        concat4("Activate the ", ordinal.as_str(), " window ", direction).as_str(),
                        concat5(
                            "Activates the ",
                            ordinal.as_str(),
                            " window, moving ",
                            direction,
                            ". Wraps around to the other end",
                        ).as_str(),
                        chords0(),
                        Scope::Window,
                        Menu::Nothing,
                        None,
                    ),
                )
            }
        },
        KeyAssignment::ActivateWindowRelativeNoWrap(n) => {
            let direction = if *n < 0 { "backwards" } else { "forwards" };
            let ordinal = english_ordinal(magnitude(*n) + 1);
            if *n == -1 {
                Some(
                    CommandDef::describe(
                        "Previous Window (No Wrap)",
                        "Switch to previous window",
                        chords0(),
                        Scope::Window,
                        Menu::Window,
                        None,
                    ),
                )
            } else if *n == 1 {
                Some(
                    CommandDef::describe(
                        "Next Window (No Wrap)",
                        "Switch to next window",
                        chords0(),
                        Scope::Window,
                        Menu::Window,
                        None,
                    ),
                )
            } else {
                Some(
                    CommandDef::describe(
                        concat4("Activate the ", ordinal.as_str(), " window ", direction).as_str(),
                        concat5(
                            "Activates the ",
                            ordinal.as_str(),
                            " window, moving ",
                            direction,
                            ".",
                        ).as_str(),
                        chords0(),
                        Scope::Window,
                        Menu::Nothing,
                        None,
                    ),
                )
            }
        },
        _ => None,
    }
}

fn describe_tab(action: &KeyAssignment, platform: Platform) -> (r: Option<CommandDef>)
    requires
        matches!(
            action,
            KeyAssignment::ActivateTabRelative(..) | KeyAssignment::ActivateTabRelativeNoWrap(..)
                | KeyAssignment::ReloadConfiguration | KeyAssignment::QuitApplication
                | KeyAssignment::MoveTabToNewWindow | KeyAssignment::MoveTabRelative(..)
                | KeyAssignment::MoveTab(..),
        ),
    ensures
        opt_command(r) == tab_command(action@, platform),
    decreases action, 0nat,
{
    match action {
        KeyAssignment::ActivateTabRelative(n) => {
            let direction = if *n < 0 { "left" } else { "right" };
            let ordinal = english_ordinal(magnitude(*n) + 1);
            if *n == -1 {
                Some(
                    CommandDef::describe(
                        "Previous Tab",
                        "Switch to previous tab",
                        chords3(SUPER | SHIFT, "[", CTRL | SHIFT, "Tab", CTRL, "PageUp"),
                        Scope::Window,
                        Menu::Window,
                        None,
                    ),
                )
            } else if *n == 1 {
                Some(
                    CommandDef::describe(
                        "Next Tab",
                        "Switch to next tab",
                        chords3(SUPER | SHIFT, "]", CTRL, "Tab", CTRL, "PageDown"),
                        Scope::Window,
                        Menu::Window,
                        None,
                    ),
                )
            } else {
                Some(
                    CommandDef::describe(
                        concat4(
                            "Activate the ",
                            ordinal.as_str(),
                            " tab to the ",
                            direction,
                        ).as_str(),
                        concat5(
                            "Activates the ",
                            ordinal.as_str(),
                            " tab to the ",
                            direction,
                            ". Wraps around to the other end",
                        ).as_str(),
                        chords0(),
                        Scope::Window,
                        Menu::Nothing,
                        None,
                    ),
                )
            }
        },
        KeyAssignment::ActivateTabRelativeNoWrap(n) => {
            let direction = if *n < 0 { "left" } else { "right" };
            let ordinal = english_ordinal(magnitude(*n) + 1);
            if *n == -1 {
                Some(
                    CommandDef::describe(
                        "Activate the tab to the left (no wrapping)",
                        "Activates the tab to the left. Stopping at the left-most tab",
                        chords0(),
                        Scope::Window,
                        Menu::Nothing,
                        None,
                    ),
                )
            } else if *n == 1 {
                Some(
                    CommandDef::describe(
                        "Activate the tab to the right (no wrapping)",
                        "Activates the tab to the right. Stopping at the right-most tab",
                        chords0(),
                        Scope::Window,
                        Menu::Nothing,
                        None,
                    ),
                )
            } else {
                Some(
                    CommandDef::describe(
                        concat4(
                            "Activate the ",
                            ordinal.as_str(),
                            " tab to the ",
                            direction,
                        ).as_str(),
                        concat4(
                            "Activates the ",
                            ordinal.as_str(),
                            " tab to the ",
                            direction,
                        ).as_str(),
                        chords0(),
                        Scope::Window,
                        Menu::Nothing,
                        None,
                    ),
                )
            }
        },
        KeyAssignment::ReloadConfiguration => Some(
            CommandDef::describe(
                "Reload Configuration",
                "Reloads the configuration file.",
                chords1(SUPER | SHIFT, "r"),
                Scope::Nothing,
                Menu::Nothing,
                None,
            ),
        ),
        KeyAssignment::QuitApplication => Some(
            CommandDef::describe(
                "Quit Kaku",
                "Quits Kaku",
                chords1(SUPER, "q"),
                Scope::Nothing,
                Menu::Kaku,
                None,
            ),
        ),
        KeyAssignment::MoveTabToNewWindow => Some(
            CommandDef::describe(
                "Move Tab to New Window",
                "Move the current tab, and every pane in it, to a new window",
                chords0(),
                Scope::Tab,
                Menu::Window,
                None,
            ),
        ),
        KeyAssignment::MoveTabRelative(n) => {
            let direction = if *n < 0 { "left" } else { "right" };
            let amount = decimal_of_signed(magnitude(*n));
            if *n == -1 {
                Some(
                    CommandDef::describe(
                        "Move Tab Left",
                        "Move current tab left",
                        chords1(CTRL | SHIFT, "PageUp"),
                        Scope::Tab,
                        Menu::Window,
                        None,
                    ),
                )
            } else if *n == 1 {
                Some(
                    CommandDef::describe(
                        "Move Tab Right",
                        "Move current tab right",
                        chords1(CTRL | SHIFT, "PageDown"),
                        Scope::Tab,
                        Menu::Window,
                        None,
                    ),
                )
            } else {
                Some(
                    CommandDef::describe(
                        concat4(
                            "Move tab ",
                            amount.as_str(),
                            " place(s) to the ",
                            direction,
                        ).as_str(),
                        concat4(
                            "Rearranges the tabs so that the current tab moves ",
                            amount.as_str(),
                            " place(s) to the ",
                            direction,
                        ).as_str(),
                        chords0(),
                        Scope::Tab,
                        Menu::Nothing,
                        None,
                    ),
                )
            }
        },
        KeyAssignment::MoveTab(n) => Some(
            CommandDef::describe(
                concat2("Move tab to index ", decimal_of(*n as u128 + 1).as_str()).as_str(),
                concat2(
                    "Rearranges the tabs so that the current tab moves to position ",
                    decimal_of(*n as u128 + 1).as_str(),
                ).as_str(),
                chords0(),
                Scope::Tab,
                Menu::Nothing,
                None,
            ),
        ),
        _ => None,
    }
}

fn describe_scroll(action: &KeyAssignment, platform: Platform) -> (r: Option<CommandDef>)
    requires
        matches!(
            action,
            KeyAssignment::ScrollByPage(..) | KeyAssignment::ScrollByLine(..)
                | KeyAssignment::ScrollToPrompt(..) | KeyAssignment::ScrollByCurrentEventWheelDelta
                | KeyAssignment::ScrollToBottom | KeyAssignment::ScrollToTop,
        ),
    ensures
        opt_command(r) == scroll_command(action@, platform),
    decreases action, 0nat,
{
    match action {
        KeyAssignment::ScrollByPage(PageAmount::OneUp) => Some(
            CommandDef::describe(
                "Scroll Up One Page",
                "Scrolls the viewport up by 1 page",
                chords1(SHIFT, "PageUp"),
                Scope::Pane,
                Menu::Nothing,
                None,
            ),
        ),
        KeyAssignment::ScrollByPage(PageAmount::OneDown) => Some(
            CommandDef::describe(
                "Scroll Down One Page",
                "Scrolls the viewport down by 1 page",
                chords1(SHIFT, "PageDown"),
                Scope::Pane,
                Menu::Nothing,
                None,
            ),
        ),
        KeyAssignment::ScrollByPage(PageAmount::Up(amount)) => Some(
            CommandDef::describe(
                concat3("Scroll Up ", amount.as_str(), " Page(s)").as_str(),
                concat3("Scrolls the viewport up by ", amount.as_str(), " pages").as_str(),
                chords0(),
                Scope::Pane,
                Menu::Nothing,
                None,
            ),
        ),
        KeyAssignment::ScrollByPage(PageAmount::Down(amount)) => Some(
            CommandDef::describe(
                concat3("Scroll Down ", amount.as_str(), " Page(s)").as_str(),
                concat3("Scrolls the viewport down by ", amount.as_str(), " pages").as_str(),
                chords0(),
                Scope::Pane,
                Menu::Nothing,
                None,
            ),
        ),
        KeyAssignment::ScrollByLine(n) => {
            let direction = if *n < 0 { "up" } else { "down" };
            let amount = decimal_of_signed(magnitude(*n));
            Some(
                CommandDef::describe(
                    concat5("Scroll ", direction, " ", amount.as_str(), " line(s)").as_str(),
                    concat5(
                        "Scrolls the viewport ",
                        direction,
                        " by ",
                        amount.as_str(),
                        " line(s)",
                    ).as_str(),
                    chords0(),
                    Scope::Pane,
                    Menu::Nothing,
                    None,
                ),
            )
        },
        KeyAssignment::ScrollToPrompt(n) => {
            let direction = if *n < 0 { "up" } else { "down" };
            let amount = decimal_of_signed(magnitude(*n));
            let ordinal = english_ordinal(magnitude(*n));
            Some(
                CommandDef::describe(
                    concat5("Scroll ", direction, " ", amount.as_str(), " prompt(s)").as_str(),
                    concat5(
                        "Scrolls the viewport ",
                        direction,
                        " to the ",
                        ordinal.as_str(),
                        " semantic prompt zone in that direction",
                    ).as_str(),
                    chords0(),
                    Scope::Pane,
                    Menu::Nothing,
                    None,
                ),
            )
        },
        KeyAssignment::ScrollByCurrentEventWheelDelta => Some(
            CommandDef::describe(
                "Scrolls based on the mouse wheel position in the current mouse event",
                "Scrolls based on the mouse wheel position in the current mouse event",
                chords0(),
                Scope::Pane,
                Menu::Nothing,
                None,
            ),
        ),
        KeyAssignment::ScrollToBottom => Some(
            CommandDef::describe(
                "Scroll to Bottom",
                "Scroll to bottom of output",
                chords1(SUPER, "End"),
                Scope::Pane,
                Menu::View,
                None,
            ),
        ),
        KeyAssignment::ScrollToTop => Some(
            CommandDef::describe(
                "Scroll to Top",
                "Scroll to top of output",
                chords1(SUPER, "Home"),
                Scope::Pane,
                Menu::View,
                None,
            ),
        ),
        _ => None,
    }
}

fn describe_split_or_resize(action: &KeyAssignment, platform: Platform) -> (r: Option<CommandDef>)
    requires
        matches!(
            action,
            KeyAssignment::ActivateCopyMode | KeyAssignment::SplitVertical(..)
                | KeyAssignment::SplitHorizontal(..) | KeyAssignment::AdjustPaneSize(..),
        ),
    ensures
        opt_command(r) == split_or_resize_command(action@, platform),
    decreases action, 0nat,
{
    match action {
        KeyAssignment::ActivateCopyMode => Some(
            CommandDef::describe(
                "Activate Copy Mode",
                "Enter mouse-less copy mode to select text using only the keyboard",
                chords1(CTRL | SHIFT, "x"),
                Scope::Pane,
                Menu::Nothing,
                None,
            ),
        ),
        KeyAssignment::SplitVertical(command) => {
            let label = label_string(action, "Split Pane Top/Bottom".to_owned());
            if matches!(command.domain, SpawnTabDomain::CurrentPaneDomain) {
                Some(
                    CommandDef::describe(
                        label.as_str(),
                        "Split pane horizontally",
                        chords1(SUPER | SHIFT, "d"),
                        Scope::Pane,
                        Menu::Shell,
                        None,
                    ),
                )
            } else {
                Some(
                    CommandDef::describe(
                        label.as_str(),
                        "Split the current pane into top and bottom panes, by spawning the default program into the bottom pane",
                        chords0(),
                        Scope::Pane,
                        Menu::Nothing,
                        None,
                    ),
                )
            }
        },
        KeyAssignment::SplitHorizontal(command) => {
            let label = label_string(action, "Split Pane Left/Right".to_owned());
            if matches!(command.domain, SpawnTabDomain::CurrentPaneDomain) {
                Some(
                    CommandDef::describe(
                        label.as_str(),
                        "Split pane vertically",
                        chords1(SUPER, "d"),
                        Scope::Pane,
                        Menu::Shell,
                        None,
                    ),
                )
            } else {
                Some(
                    CommandDef::describe(
                        label.as_str(),
                        "Split the current pane into left and right panes, by spawning the default program into the right pane",
                        chords0(),
                        Scope::Pane,
                        Menu::Nothing,
                        None,
                    ),
                )
            }
        },
        KeyAssignment::AdjustPaneSize(PaneDirection::Left, amount) => Some(
            CommandDef::describe(
                "Resize Split Left",
                concat3(
                    "Move the current split divider left (step: ",
                    decimal_of(*amount as u128).as_str(),
                    " cells)",
                ).as_str(),
                chords1(SUPER | CTRL, "LeftArrow"),
                Scope::Pane,
                Menu::Nothing,
                None,
            ),
        ),
        KeyAssignment::AdjustPaneSize(PaneDirection::Right, amount) => Some(
            CommandDef::describe(
                "Resize Split Right",
                concat3(
                    "Move the current split divider right (step: ",
                    decimal_of(*amount as u128).as_str(),
                    " cells)",
                ).as_str(),
                chords1(SUPER | CTRL, "RightArrow"),
                Scope::Pane,
                Menu::Nothing,
                None,
            ),
        ),
        KeyAssignment::AdjustPaneSize(PaneDirection::Up, amount) => Some(
            CommandDef::describe(
                "Resize Split Up",
                concat3(
                    "Move the current split divider up (step: ",
                    decimal_of(*amount as u128).as_str(),
                    " cells)",
                ).as_str(),
                chords1(SUPER | CTRL, "UpArrow"),
                Scope::Pane,
                Menu::Nothing,
                None,
            ),
        ),
        KeyAssignment::AdjustPaneSize(PaneDirection::Down, amount) => Some(
            CommandDef::describe(
                "Resize Split Down",
                concat3(
                    "Move the current split divider down (step: ",
                    decimal_of(*amount as u128).as_str(),
                    " cells)",
                ).as_str(),
                chords1(SUPER | CTRL, "DownArrow"),
                Scope::Pane,
                Menu::Nothing,
                None,
            ),
        ),
        KeyAssignment::AdjustPaneSize(PaneDirection::Next | PaneDirection::Prev, _) => None,
        _ => None,
    }
}

fn describe_pane_focus(action: &KeyAssignment, platform: Platform) -> (r: Option<CommandDef>)
    requires
        matches!(action, KeyAssignment::ActivatePaneDirection(..)),
    ensures
        opt_command(r) == pane_focus_command(action@, platform),
    decreases action, 0nat,
{
    match action {
        KeyAssignment::ActivatePaneDirection(PaneDirection::Next | PaneDirection::Prev) => None,
        KeyAssignment::ActivatePaneDirection(PaneDirection::Left) => Some(
            CommandDef::describe(
                "Activate Pane Left",
                "Activates the pane to the left of the current pane",
                chords1(SUPER | ALT, "LeftArrow"),
                Scope::Pane,
                Menu::Nothing,
                None,
            ),
        ),
        KeyAssignment::ActivatePaneDirection(PaneDirection::Right) => Some(
            CommandDef::describe(
                "Activate Pane Right",
                "Activates the pane to the right of the current pane",
                chords1(SUPER | ALT, "RightArrow"),
                Scope::Pane,
                Menu::Nothing,
                None,
            ),
        ),
        KeyAssignment::ActivatePaneDirection(PaneDirection::Up) => Some(
            CommandDef::describe(
                "Activate Pane Up",
                "Activates the pane to the top of the current pane",
                chords1(SUPER | ALT, "UpArrow"),
                Scope::Pane,
                Menu::Nothing,
                None,
            ),
        ),
        KeyAssignment::ActivatePaneDirection(PaneDirection::Down) => Some(
            CommandDef::describe(
                "Activate Pane Down",
                "Activates the pane to the bottom of the current pane",
                chords1(SUPER | ALT, "DownArrow"),
                Scope::Pane,
                Menu::Nothing,
                None,
            ),
        ),
        _ => None,
    }
}

fn describe_navigation_or_domain(
    action: &KeyAssignment,
    platform: Platform,
) -> (r: Option<CommandDef>)
    requires
        matches!(
            action,
            KeyAssignment::TogglePaneZoomState | KeyAssignment::ActivateLastTab
                | KeyAssignment::ClearKeyTableStack | KeyAssignment::OpenLinkAtMouseCursor
                | KeyAssignment::ShowLauncherArgs(..) | KeyAssignment::ShowLauncher
                | KeyAssignment::ShowTabNavigator | KeyAssignment::DetachDomain(..),
        ),
    ensures
        opt_command(r) == navigation_or_domain_command(action@, platform),
    decreases action, 0nat,
{
    match action {
        KeyAssignment::TogglePaneZoomState => Some(
            CommandDef::describe(
                "Zoom Pane",
                "Toggle pane zoom",
                chords1(SUPER | SHIFT, "Enter"),
                Scope::Pane,
                Menu::Window,
                None,
            ),
        ),
        KeyAssignment::ActivateLastTab => Some(
            CommandDef::describe(
                "Last Active Tab",
                "Switch to last active tab",
                chords1(SUPER | SHIFT, "t"),
                Scope::Window,
                Menu::Window,
                None,
            ),
        ),
        KeyAssignment::ClearKeyTableStack => Some(
            CommandDef::describe(
                "Clear the key table stack",
                "Removes all entries from the stack",
                chords0(),
                Scope::Window,
                Menu::Nothing,
                None,
            ),
        ),
        KeyAssignment::OpenLinkAtMouseCursor => Some(
            CommandDef::describe(
                "Open link at mouse cursor",
                "If there is no link under the mouse cursor, has no effect.",
                chords0(),
                Scope::Pane,
                Menu::Nothing,
                None,
            ),
        ),
        KeyAssignment::ShowLauncherArgs(_) | KeyAssignment::ShowLauncher => Some(
            CommandDef::describe(
                "Launcher",
                "Open command launcher",
                chords0(),
                Scope::Window,
                Menu::Nothing,
                None,
            ),
        ),
        KeyAssignment::ShowTabNavigator => Some(
            CommandDef::describe(
                "Tab Navigator",
                "Interactive tab switcher",
                chords1(SUPER | SHIFT, "o"),
                Scope::Window,
                Menu::Window,
                None,
            ),
        ),
        KeyAssignment::DetachDomain(SpawnTabDomain::CurrentPaneDomain) => Some(
            CommandDef::describe(
                "Detach the domain of the active pane",
                "Detaches (disconnects from) the domain of the active pane",
                chords0(),
                Scope::Pane,
                Menu::Nothing,
                None,
            ),
        ),
        KeyAssignment::DetachDomain(SpawnTabDomain::DefaultDomain) => Some(
            CommandDef::describe(
                "Detach the default domain",
                "Detaches (disconnects from) the default domain",
                chords0(),
                Scope::Pane,
                Menu::Nothing,
                None,
            ),
        ),
        KeyAssignment::DetachDomain(SpawnTabDomain::DomainName(name)) => Some(
            CommandDef::describe(
                concat3("Detach `", name.as_str(), "`").as_str(),
                concat3("Disconnect from `", name.as_str(), "` domain").as_str(),
                chords0(),
                Scope::Pane,
                Menu::Shell,
                None,
            ),
        ),
        KeyAssignment::DetachDomain(SpawnTabDomain::DomainId(id)) => Some(
            CommandDef::describe(
                concat2("Detach the domain with id ", decimal_of(*id as u128).as_str()).as_str(),
                concat2(
                    "Detaches (disconnects from) the domain with id ",
                    decimal_of(*id as u128).as_str(),
                ).as_str(),
                chords0(),
                Scope::Pane,
                Menu::Shell,
                None,
            ),
        ),
        _ => None,
    }
}

fn describe_text(action: &KeyAssignment, platform: Platform) -> (r: Option<CommandDef>)
    requires
        matches!(
            action,
            KeyAssignment::OpenUri(..) | KeyAssignment::SendString(..)
                | KeyAssignment::SendStringIfNotAltScreen(..) | KeyAssignment::SendKey(..)
                | KeyAssignment::Nop,
        ),
    ensures
        opt_command(r) == text_command(action@, platform),
    decreases action, 0nat,
{
    match action {
        KeyAssignment::OpenUri(uri) => {
            if same(uri.as_str(), "https://github.com/tw93/Kaku") {
                Some(
                    CommandDef::describe(
                        "Star on GitHub",
                        "Star Kaku on GitHub",
                        chords0(),
                        Scope::Nothing,
                        Menu::Help,
                        None,
                    ),
                )
            } else if same(uri.as_str(), "https://github.com/tw93/Kaku/discussions/") {
                Some(
                    CommandDef::describe(
                        "Discuss on GitHub",
                        "Visit Kaku's GitHub discussion",
                        chords0(),
                        Scope::Nothing,
                        Menu::Nothing,
                        None,
                    ),
                )
            } else if same(uri.as_str(), "https://github.com/tw93/Kaku/issues/") {
                Some(
                    CommandDef::describe(
                        "Report Issue",
                        "Submit bug report or feature request",
                        chords0(),
                        Scope::Nothing,
                        Menu::Help,
                        None,
                    ),
                )
            } else {
                Some(
                    CommandDef::describe(
                        concat3("Open ", uri.as_str(), " in your browser").as_str(),
                        concat3("Open ", uri.as_str(), " in your browser").as_str(),
                        chords0(),
                        Scope::Nothing,
                        Menu::Nothing,
                        None,
                    ),
                )
            }
        },
        KeyAssignment::SendString(text) => Some(
            CommandDef::describe(
                concat3(
                    "Sends `",
                    text.as_str(),
                    "` to the active pane, as though you typed it",
                ).as_str(),
                concat3(
                    "Sends `",
                    text.as_str(),
                    "` to the active pane, as though you typed it",
                ).as_str(),
                chords0(),
                Scope::Nothing,
                Menu::Nothing,
                None,
            ),
        ),
        KeyAssignment::SendStringIfNotAltScreen(text) => {
            if is_undo_text(text.as_str()) && platform == Platform::MacOs {
                Some(
                    CommandDef::describe(
                        "Undo at the shell prompt",
                        "Writes the given bytes to the pane only when the alt screen is inactive. Used to forward Cmd+Z to the shell's line-editor undo (zsh ZLE / bash readline) without interfering with full-screen TUI apps like vim.",
                        chords1(SUPER, "z"),
                        Scope::Nothing,
                        Menu::Nothing,
                        None,
                    ),
                )
            } else if is_undo_text(text.as_str()) {
                Some(
                    CommandDef::describe(
                        "Undo at the shell prompt",
                        "Writes the given bytes to the pane only when the alt screen is inactive. Used to forward Cmd+Z to the shell's line-editor undo (zsh ZLE / bash readline) without interfering with full-screen TUI apps like vim.",
                        chords0(),
                        Scope::Nothing,
                        Menu::Nothing,
                        None,
                    ),
                )
            } else {
                Some(
                    CommandDef::describe(
                        concat3(
                            "Sends `",
                            text.as_str(),
                            "` to the pane (normal screen only)",
                        ).as_str(),
                        "Writes the given bytes to the pane only when the alt screen is inactive. Used to forward Cmd+Z to the shell's line-editor undo (zsh ZLE / bash readline) without interfering with full-screen TUI apps like vim.",
                        chords0(),
                        Scope::Nothing,
                        Menu::Nothing,
                        None,
                    ),
                )
            }
        },
        KeyAssignment::SendKey(key) => Some(
            CommandDef::describe(
                concat3(
                    "Sends ",
                    key.as_str(),
                    " to the active pane, as though you typed it",
                ).as_str(),
                concat3(
                    "Sends ",
                    key.as_str(),
                    " to the active pane, as though you typed it",
                ).as_str(),
                chords0(),
                Scope::Nothing,
                Menu::Nothing,
                None,
            ),
        ),
        KeyAssignment::Nop => Some(
            CommandDef::describe(
                "Does nothing",
                "Has no effect",
                chords0(),
                Scope::Nothing,
                Menu::Nothing,
                None,
            ),
        ),
        _ => None,
    }
}

fn describe_selection(action: &KeyAssignment, platform: Platform) -> (r: Option<CommandDef>)
    requires
        matches!(
            action,
            KeyAssignment::DisableDefaultAssignment
                | KeyAssignment::ToggleCurrentTabPanesInputBroadcast
                | KeyAssignment::ToggleAllPanesInputBroadcast
                | KeyAssignment::SelectTextAtMouseCursor(..)
                | KeyAssignment::ExtendSelectionToMouseCursor(..) | KeyAssignment::ClearSelection
                | KeyAssignment::CompleteSelection(..)
                | KeyAssignment::CompleteSelectionOrOpenLinkAtMouseCursor(..)
                | KeyAssignment::StartWindowDrag,
        ),
    ensures
        opt_command(r) == selection_command(action@, platform),
    decreases action, 0nat,
{
    match action {
        KeyAssignment::DisableDefaultAssignment
        | KeyAssignment::ToggleCurrentTabPanesInputBroadcast
        | KeyAssignment::ToggleAllPanesInputBroadcast => None,
        KeyAssignment::SelectTextAtMouseCursor(mode) => Some(
            CommandDef::describe(
                concat2("Selects text at the mouse cursor location using ", mode.as_str()).as_str(),
                concat2("Selects text at the mouse cursor location using ", mode.as_str()).as_str(),
                chords0(),
                Scope::Nothing,
                Menu::Nothing,
                None,
            ),
        ),
        KeyAssignment::ExtendSelectionToMouseCursor(mode) => Some(
            CommandDef::describe(
                concat2(
                    "Extends the selection text to the mouse cursor location using ",
                    mode.as_str(),
                ).as_str(),
                concat2(
                    "Extends the selection text to the mouse cursor location using ",
                    mode.as_str(),
                ).as_str(),
                chords0(),
                Scope::Nothing,
                Menu::Nothing,
                None,
            ),
        ),
        KeyAssignment::ClearSelection => Some(
            CommandDef::describe(
                "Clears the selection in the current pane",
                "Clears the selection in the current pane",
                chords0(),
                Scope::Nothing,
                Menu::Nothing,
                None,
            ),
        ),
        KeyAssignment::CompleteSelection(destination) => Some(
            CommandDef::describe(
                "Completes selection; copies if copy_on_select is enabled",
                concat2(
                    "Completes text selection using the mouse. If copy_on_select is enabled, copy to ",
                    destination_name(*destination),
                ).as_str(),
                chords0(),
                Scope::Nothing,
                Menu::Nothing,
                None,
            ),
        ),
        KeyAssignment::CompleteSelectionOrOpenLinkAtMouseCursor(destination) => Some(
            CommandDef::describe(
                concat2(
                    "Open a URL or complete selection with optional copy to ",
                    destination_name(*destination),
                ).as_str(),
                concat2(
                    "If the mouse is over a link, open it, otherwise, completes text selection using the mouse. If copy_on_select is enabled, copy to ",
                    destination_name(*destination),
                ).as_str(),
                chords0(),
                Scope::Nothing,
                Menu::Nothing,
                None,
            ),
        ),
        KeyAssignment::StartWindowDrag => Some(
            CommandDef::describe(
                "Requests a window drag operation from the window environment",
                "Requests a window drag operation from the window environment",
                chords0(),
                Scope::Nothing,
                Menu::Nothing,
                None,
            ),
        ),
        _ => None,
    }
}

fn describe_workspace(action: &KeyAssignment, platform: Platform) -> (r: Option<CommandDef>)
    requires
        matches!(
            action,
            KeyAssignment::Multiple(..) | KeyAssignment::SwitchToWorkspace { .. }
                | KeyAssignment::SwitchWorkspaceRelative(..)
                | KeyAssignment::ActivateKeyTable { .. } | KeyAssignment::PopKeyTable
                | KeyAssignment::AttachDomain(..),
        ),
    ensures
        opt_command(r) == workspace_command(action@, platform),
    decreases action, 0nat,
{
    match action {
        KeyAssignment::Multiple(parts) => Some(
            CommandDef::describe(
                multiple_brief(parts, platform).as_str(),
                "Performs multiple nested actions",
                chords0(),
                Scope::Pane,
                Menu::Nothing,
                None,
            ),
        ),
        KeyAssignment::SwitchToWorkspace { name: None, spawn: None } => Some(
            CommandDef::describe(
                "Spawn the default program into a new workspace and switch to it",
                "Spawn the default program into a new workspace and switch to it",
                chords0(),
                Scope::Nothing,
                Menu::Nothing,
                None,
            ),
        ),
        KeyAssignment::SwitchToWorkspace { name: Some(name), spawn: None } => Some(
            CommandDef::describe(
                concat3(
                    "Switch to workspace `",
                    name.as_str(),
                    "`, spawn the default program if that workspace doesn't already exist",
                ).as_str(),
                concat3(
                    "Switch to workspace `",
                    name.as_str(),
                    "`, spawn the default program if that workspace doesn't already exist",
                ).as_str(),
                chords0(),
                Scope::Nothing,
                Menu::Nothing,
                None,
            ),
        ),
        KeyAssignment::SwitchToWorkspace { name: Some(name), spawn: Some(prog) } => Some(
            CommandDef::describe(
                concat5(
                    "Switch to workspace `",
                    name.as_str(),
                    "`, spawn ",
                    prog.summary.as_str(),
                    " if that workspace doesn't already exist",
                ).as_str(),
                concat5(
                    "Switch to workspace `",
                    name.as_str(),
                    "`, spawn ",
                    prog.summary.as_str(),
                    " if that workspace doesn't already exist",
                ).as_str(),
                chords0(),
                Scope::Nothing,
                Menu::Nothing,
                None,
            ),
        ),
        KeyAssignment::SwitchToWorkspace { name: None, spawn: Some(prog) } => Some(
            CommandDef::describe(
                concat3(
                    "Spawn the ",
                    prog.summary.as_str(),
                    " into a new workspace and switch to it",
                ).as_str(),
                concat3(
                    "Spawn the ",
                    prog.summary.as_str(),
                    " into a new workspace and switch to it",
                ).as_str(),
                chords0(),
                Scope::Nothing,
                Menu::Nothing,
                None,
            ),
        ),
        KeyAssignment::SwitchWorkspaceRelative(n) => {
            let direction = if *n < 0 { "previous" } else { "next" };
            let ordinal = english_ordinal(magnitude(*n));
            Some(
                CommandDef::describe(
                    concat5("Switch to ", ordinal.as_str(), " ", direction, " workspace").as_str(),
                    concat5(
                        "Switch to the ",
                        ordinal.as_str(),
                        " ",
                        direction,
                        " workspace, ordered lexicographically by workspace name",
                    ).as_str(),
                    chords0(),
                    Scope::Pane,
                    Menu::Nothing,
                    None,
                ),
            )
        },
        KeyAssignment::ActivateKeyTable { name, options: _ } => Some(
            CommandDef::describe(
                concat3("Activate key table `", name.as_str(), "`").as_str(),
                concat3("Activate key table `", name.as_str(), "`").as_str(),
                chords0(),
                Scope::Pane,
                Menu::Nothing,
                None,
            ),
        ),
        KeyAssignment::PopKeyTable => Some(
            CommandDef::describe(
                "Pop the current key table",
                "Pop the current key table",
                chords0(),
                Scope::Pane,
                Menu::Nothing,
                None,
            ),
        ),
        KeyAssignment::AttachDomain(name) => Some(
            CommandDef::describe(
                concat3("Attach domain `", name.as_str(), "`").as_str(),
                concat3("Attach domain `", name.as_str(), "`").as_str(),
                chords0(),
                Scope::Pane,
                Menu::Shell,
                None,
            ),
        ),
        _ => None,
    }
}

fn describe_pane_state(action: &KeyAssignment, platform: Platform) -> (r: Option<CommandDef>)
    requires
        matches!(
            action,
            KeyAssignment::CopyMode(..) | KeyAssignment::RotatePanes(..)
                | KeyAssignment::TogglePaneSplitDirection | KeyAssignment::SplitPane(..)
                | KeyAssignment::ResetTerminal | KeyAssignment::ActivateCommandPalette,
        ),
    ensures
        opt_command(r) == pane_state_command(action@, platform),
    decreases action, 0nat,
{
    match action {
        KeyAssignment::CopyMode(mode) => Some(
            CommandDef::describe(mode.as_str(), "", chords0(), Scope::Pane, Menu::Nothing, None),
        ),
        KeyAssignment::RotatePanes(direction) => Some(
            CommandDef::describe(
                concat2("Rotate panes ", rotation_name(*direction)).as_str(),
                concat2("Rotate panes ", rotation_name(*direction)).as_str(),
                chords0(),
                Scope::Pane,
                Menu::Nothing,
                None,
            ),
        ),
        KeyAssignment::TogglePaneSplitDirection => Some(
            CommandDef::describe(
                "Toggle Split Direction",
                "Toggle the split direction between horizontal and vertical",
                chords1(SUPER | SHIFT, "s"),
                Scope::Pane,
                Menu::Nothing,
                None,
            ),
        ),
        KeyAssignment::SplitPane(split) => {
            let label = label_string(
                action,
                concat2("Split the current pane ", direction_name(split.direction)),
            );
            Some(
                CommandDef::describe(
                    label.as_str(),
                    concat2("Split the current pane ", direction_name(split.direction)).as_str(),
                    chords0(),
                    Scope::Pane,
                    Menu::Nothing,
                    split_icon(split.direction),
                ),
            )
        },
        KeyAssignment::ResetTerminal => Some(
            CommandDef::describe(
                "Reset the terminal emulation state in the current pane",
                "Reset the terminal emulation state in the current pane",
                chords0(),
                Scope::Pane,
                Menu::Nothing,
                None,
            ),
        ),
        KeyAssignment::ActivateCommandPalette => Some(
            CommandDef::describe(
                "Command Palette",
                "Open command palette",
                chords1(SUPER | SHIFT, "p"),
                Scope::Pane,
                Menu::Shell,
                None,
            ),
        ),
        _ => None,
    }
}

/// Describes a key assignment action; returns a bunch
/// of metadata that is useful in the command palette/menubar context.
/// This function will be called for the result of compute_default_actions(),
/// but can also be used to describe user-provided commands
pub fn derive_command_from_key_assignment(action: &KeyAssignment, platform: Platform) -> (r: Option<
    CommandDef,
>)
    ensures
        opt_command(r) == command_of(action@, platform),
    decreases action, 1nat,
{
    match action {
        KeyAssignment::PasteFrom(..) | KeyAssignment::CopyTextTo { .. }
        | KeyAssignment::CopyTo(..) | KeyAssignment::ToggleFullScreen
        | KeyAssignment::CenterWindow | KeyAssignment::MaximizeWindow
        | KeyAssignment::ToggleAlwaysOnTop | KeyAssignment::ToggleAlwaysOnBottom
        | KeyAssignment::SetWindowLevel(..) | KeyAssignment::Hide | KeyAssignment::Show
        | KeyAssignment::HideApplication | KeyAssignment::SpawnWindow => {
            describe_clipboard_or_window(action, platform)
        },
        KeyAssignment::ClearScrollback(..) | KeyAssignment::Search(..)
        | KeyAssignment::ShowDebugOverlay | KeyAssignment::InputSelector(..)
        | KeyAssignment::Confirmation(..) | KeyAssignment::PromptInputLine(..)
        | KeyAssignment::QuickSelect | KeyAssignment::QuickSelectArgs(..)
        | KeyAssignment::CharSelect(..) | KeyAssignment::PaneSelect(..) => describe_screen(
            action,
            platform,
        ),
        KeyAssignment::DecreaseFontSize | KeyAssignment::IncreaseFontSize
        | KeyAssignment::ResetFontSize | KeyAssignment::ResetFontAndWindowSize
        | KeyAssignment::SpawnTab(..) | KeyAssignment::SpawnCommandInNewTab(..)
        | KeyAssignment::SpawnCommandInNewWindow(..) => describe_font_or_spawn(action, platform),
        KeyAssignment::ActivateTab(..) | KeyAssignment::ActivatePaneByIndex(..)
        | KeyAssignment::SetPaneZoomState(..) | KeyAssignment::SetPaneEncoding(..)
        | KeyAssignment::EmitEvent(..) => describe_direct_target(action, platform),
        KeyAssignment::CloseCurrentTab { .. } | KeyAssignment::CloseCurrentPane { .. }
        | KeyAssignment::ReopenLastClosedTab | KeyAssignment::RestorePreviousWindow
        | KeyAssignment::ActivateWindow(..) | KeyAssignment::ActivateWindowRelative(..)
        | KeyAssignment::ActivateWindowRelativeNoWrap(..) => describe_close_or_window(
            action,
            platform,
        ),
        KeyAssignment::ActivateTabRelative(..) | KeyAssignment::ActivateTabRelativeNoWrap(..)
        | KeyAssignment::ReloadConfiguration | KeyAssignment::QuitApplication
        | KeyAssignment::MoveTabToNewWindow | KeyAssignment::MoveTabRelative(..)
        | KeyAssignment::MoveTab(..) => describe_tab(action, platform),
        KeyAssignment::ScrollByPage(..) | KeyAssignment::ScrollByLine(..)
        | KeyAssignment::ScrollToPrompt(..) | KeyAssignment::ScrollByCurrentEventWheelDelta
        | KeyAssignment::ScrollToBottom | KeyAssignment::ScrollToTop => describe_scroll(
            action,
            platform,
        ),
        KeyAssignment::ActivateCopyMode | KeyAssignment::SplitVertical(..)
        | KeyAssignment::SplitHorizontal(..) | KeyAssignment::AdjustPaneSize(..) => {
            describe_split_or_resize(action, platform)
        },
        KeyAssignment::ActivatePaneDirection(..) => describe_pane_focus(action, platform),
        KeyAssignment::TogglePaneZoomState | KeyAssignment::ActivateLastTab
        | KeyAssignment::ClearKeyTableStack | KeyAssignment::OpenLinkAtMouseCursor
        | KeyAssignment::ShowLauncherArgs(..) | KeyAssignment::ShowLauncher
        | KeyAssignment::ShowTabNavigator | KeyAssignment::DetachDomain(..) => {
            describe_navigation_or_domain(action, platform)
        },
        KeyAssignment::OpenUri(..) | KeyAssignment::SendString(..)
        | KeyAssignment::SendStringIfNotAltScreen(..) | KeyAssignment::SendKey(..)
        | KeyAssignment::Nop => describe_text(action, platform),
        KeyAssignment::DisableDefaultAssignment
        | KeyAssignment::ToggleCurrentTabPanesInputBroadcast
        | KeyAssignment::ToggleAllPanesInputBroadcast
        | KeyAssignment::SelectTextAtMouseCursor(..)
        | KeyAssignment::ExtendSelectionToMouseCursor(..) | KeyAssignment::ClearSelection
        | KeyAssignment::CompleteSelection(..)
        | KeyAssignment::CompleteSelectionOrOpenLinkAtMouseCursor(..)
        | KeyAssignment::StartWindowDrag => describe_selection(action, platform),
        KeyAssignment::Multiple(..) | KeyAssignment::SwitchToWorkspace { .. }
        | KeyAssignment::SwitchWorkspaceRelative(..) | KeyAssignment::ActivateKeyTable { .. }
        | KeyAssignment::PopKeyTable | KeyAssignment::AttachDomain(..) => describe_workspace(
            action,
            platform,
        ),
        KeyAssignment::CopyMode(..) | KeyAssignment::RotatePanes(..)
        | KeyAssignment::TogglePaneSplitDirection | KeyAssignment::SplitPane(..)
        | KeyAssignment::ResetTerminal | KeyAssignment::ActivateCommandPalette => {
            describe_pane_state(action, platform)
        },
    }
}

// ---------------------------------------------------------------------------
// Default key bindings
// ---------------------------------------------------------------------------

/// The character that shift produces from `c` on a US ANSI layout.
pub open spec fn shifted_char(c: char) -> char {
    if c == '1' {
        '!'
    } else if c == '2' {
        '@'
    } else if c == '3' {
        '#'
    } else if c == '4' {
        '$'
    } else if c == '5' {
        '%'
    } else if c == '6' {
        '^'
    } else if c == '7' {
        '&'
    } else if c == '8' {
        '*'
    } else if c == '9' {
        '('
    } else if c == '0' {
        ')'
    } else if c == '[' {
        '{'
    } else if c == ']' {
        '}'
    } else if c == '=' {
        '+'
    } else if c == '-' {
        '_'
    } else if c == '\'' {
        '"'
    } else {
        upper_char(c)
    }
}

/// A label of one character shifts to another; any other label is its own.
pub open spec fn shifted_label(s: Seq<char>) -> Seq<char> {
    if s.len() == 1 {
        seq![shifted_char(s[0])]
    } else {
        s
    }
}

fn shift_char(c: char) -> (r: char)
    ensures
        r == shifted_char(c),
{
    match c {
        '1' => '!',
        '2' => '@',
        '3' => '#',
        '4' => '$',
        '5' => '%',
        '6' => '^',
        '7' => '&',
        '8' => '*',
        '9' => '(',
        '0' => ')',
        '[' => '{',
        ']' => '}',
        '=' => '+',
        '-' => '_',
        '\'' => '"',
        _ => ascii_upper_char(c),
    }
}

/// A helper function used to synthesize key binding permutations.
/// If the input is a character on a US ANSI keyboard layout, returns
/// the the typical character that is produced when holding down
/// the shift key and pressing the original key.
/// This doesn't produce an exhaustive list because there are only
/// a handful of default assignments in the catalogue.
pub fn us_layout_shift(s: &str) -> (r: String)
    ensures
        r@ == shifted_label(s@),
{
    let cs = chars_of(s);
    if cs.len() == 1 {
        let mut out = String::new();
        out.push(shift_char(cs[0]));
        assert(out@ =~= shifted_label(s@));
        out
    } else {
        s.to_owned()
    }
}

/// The chords that one default chord stands for.
///
/// A shifted key may arrive as the lowercase or the uppercase key with SHIFT
/// held, or as the uppercase key alone, and every SUPER chord has CTRL+SHIFT
/// forms for systems whose window manager keeps SUPER to itself.
pub open spec fn chord_forms(mods: u16, key: KeyCode, shifted: KeyCode) -> Seq<(u16, KeyCode)> {
    if mods == SUPER {
        if shifted != key {
            seq![
                (mods, key),
                (CTRL | SHIFT, key),
                (CTRL | SHIFT, shifted),
                (CTRL, shifted),
            ]
        } else {
            seq![(mods, key), (CTRL | SHIFT, key)]
        }
    } else if has_mods(mods, SHIFT) && shifted != key {
        seq![(mods, key), (mods, shifted), (mods & !SHIFT, shifted)]
    } else {
        seq![(mods, key)]
    }
}

/// The forms of every chord of a command, in order.
pub open spec fn permuted(keys: Seq<(u16, Seq<char>)>, table: KeyTable) -> Seq<(u16, KeyCode)>
    decreases keys.len(),
{
    if keys.len() == 0 {
        seq![]
    } else {
        let last = keys.last();
        permuted(keys.drop_last(), table) + chord_forms(
            last.0,
            table.code_of(last.1),
            table.code_of(shifted_label(last.1)),
        )
    }
}

/// Whether every chord of a command names a key.
pub open spec fn chords_known(keys: Seq<(u16, Seq<char>)>, table: KeyTable) -> bool {
    forall|i: int| 0 <= i < keys.len() ==> table.knows(#[trigger] keys[i].1)
}

/// Whether a character is an uppercase ASCII letter.
pub open spec fn is_upper(c: char) -> bool {
    'A' <= c <= 'Z'
}

/// The named keys that the catalogue binds.
pub open spec fn names_key(label: Seq<char>) -> bool {
    ||| label == "Insert"@
    ||| label == "Copy"@
    ||| label == "Paste"@
    ||| label == "UpArrow"@
    ||| label == "DownArrow"@
    ||| label == "LeftArrow"@
    ||| label == "RightArrow"@
    ||| label == "Space"@
    ||| label == "Tab"@
    ||| label == "PageUp"@
    ||| label == "PageDown"@
    ||| label == "Home"@
    ||| label == "End"@
    ||| label == "Enter"@
}

/// Whether a label is a single character that is no uppercase letter, or one of
/// the named keys.
pub open spec fn label_plain(label: Seq<char>) -> bool {
    (label.len() == 1 && !is_upper(label[0])) || names_key(label)
}

pub open spec fn labels_plain(keys: Seq<(u16, Seq<char>)>) -> bool {
    forall|i: int| 0 <= i < keys.len() ==> label_plain(#[trigger] keys[i].1)
}

/// Whether the table lists the named keys that the catalogue binds.
pub open spec fn names_catalogue_keys(table: KeyTable) -> bool {
    &&& table.knows("Insert"@)
    &&& table.knows("Copy"@)
    &&& table.knows("Paste"@)
    &&& table.knows("UpArrow"@)
    &&& table.knows("DownArrow"@)
    &&& table.knows("LeftArrow"@)
    &&& table.knows("RightArrow"@)
    &&& table.knows("Space"@)
    &&& table.knows("Tab"@)
    &&& table.knows("PageUp"@)
    &&& table.knows("PageDown"@)
    &&& table.knows("Home"@)
    &&& table.knows("End"@)
    &&& table.knows("Enter"@)
}

impl CommandDef {
    /// Synthesizes the combinations under which the default chords of the
    /// command can present themselves. Depending on the OS, a shifted key
    /// combination such as CTRL-SHIFT-L may present as either:
    /// CTRL+SHIFT + mapped lowercase l
    /// CTRL+SHIFT + mapped uppercase l
    /// CTRL       + mapped uppercase l
    pub fn permute_keys(&self, table: &KeyTable) -> (r: Vec<(Modifiers, KeyCode)>)
        requires
            chords_known(self@.keys, *table),
        ensures
            r@ == permuted(self@.keys, *table),
    {
        let mut keys: Vec<(Modifiers, KeyCode)> = Vec::new();
        let mut i: usize = 0;
        while i < self.keys.len()
            invariant
                i <= self.keys.len(),
                chords_known(self@.keys, *table),
                keys@ == permuted(self@.keys.take(i as int), *table),
            decreases self.keys.len() - i,
        {
            let mods: Modifiers = self.keys[i].0;
            let label = self.keys[i].1.as_str();
            assert(self@.keys[i as int] == (mods, label@));
            assert(table.knows(self@.keys[i as int].1));
            let key = table.resolve(label);
            let ukey = table.resolve(us_layout_shift(label).as_str());
            let ghost before = keys@;
            keys.push((mods, key));
            if mods == SUPER {
                keys.push((CTRL | SHIFT, key));
                if ukey != key {
                    keys.push((CTRL | SHIFT, ukey));
                    keys.push((CTRL, ukey));
                }
            } else if contains_mods(mods, SHIFT) && ukey != key {
                keys.push((mods, ukey));
                keys.push((mods & !SHIFT, ukey));
            }
            proof {
                let now = self@.keys.take(i + 1);
                assert(now.drop_last() =~= self@.keys.take(i as int));
                assert(now.last() == self@.keys[i as int]);
                assert(keys@ =~= before + chord_forms(mods, key, ukey));
            }
            i += 1;
        }
        assert(self@.keys.take(i as int) =~= self@.keys);
        keys
    }
}

// ---------------------------------------------------------------------------
// Localization
// ---------------------------------------------------------------------------

/// The slug of the characters of `s`, before a trailing separator is dropped:
/// runs of other characters become one underscore each, but for a leading run.
pub open spec fn slug_body(s: Seq<char>) -> Seq<char>
    decreases s.len(),
{
    if s.len() == 0 {
        seq![]
    } else {
        let before = slug_body(s.drop_last());
        let c = lower_char(s.last());
        if is_alnum(c) {
            before.push(c)
        } else if before.len() == 0 || before.last() == '_' {
            before
        } else {
            before.push('_')
        }
    }
}

/// The slug that names a label in the translation files.
pub open spec fn slug_of(s: Seq<char>) -> Seq<char> {
    let body = slug_body(s);
    if body.len() > 0 && body.last() == '_' {
        body.drop_last()
    } else {
        body
    }
}

/// No two separators stand side by side in a slug body, none starts it, and
/// every other character is a lowercase letter or a digit.
pub open spec fn slug_shaped(t: Seq<char>) -> bool {
    &&& t.len() > 0 ==> t[0] != '_'
    &&& forall|i: int| 0 <= i < t.len() ==> is_slug_char(#[trigger] t[i])
    &&& forall|i: int| 1 <= i < t.len() ==> !(t[i - 1] == '_' && #[trigger] t[i] == '_')
}

pub open spec fn is_slug_char(c: char) -> bool {
    ('a' <= c && c <= 'z') || ('0' <= c && c <= '9') || c == '_'
}

proof fn lemma_slug_body_shaped(s: Seq<char>)
    ensures
        slug_shaped(slug_body(s)),
    decreases s.len(),
{
    if s.len() > 0 {
        lemma_slug_body_shaped(s.drop_last());
        let before = slug_body(s.drop_last());
        let now = slug_body(s);
        assert forall|i: int| 1 <= i < now.len() implies !(now[i - 1] == '_' && #[trigger] now[i]
            == '_') by {
            if i < before.len() {
                assert(before[i] == now[i]);
            }
        }
    }
}

/// A slug holds lowercase letters, digits and single underscores between them,
/// whatever the label was.
pub proof fn slug_is_well_shaped(s: Seq<char>)
    ensures
        slug_shaped(slug_of(s)),
        slug_of(s).len() > 0 ==> slug_of(s).last() != '_',
{
    lemma_slug_body_shaped(s);
    let body = slug_body(s);
    let slug = slug_of(s);
    if slug.len() > 0 && slug.len() < body.len() {
        assert(!(body[body.len() - 2] == '_' && body[body.len() - 1] == '_'));
    }
    assert forall|i: int| 1 <= i < slug.len() implies !(slug[i - 1] == '_' && #[trigger] slug[i]
        == '_') by {
        assert(body[i] == slug[i]);
    }
}

/// Lowercase + collapse-non-alphanumeric slug used as the suffix for
/// i18n keys (e.g. `"Toggle Full Screen"` -> `"toggle_full_screen"`).
///
/// The function intentionally drops anything that isn't `[a-z0-9_]` so
/// dynamic brief strings that interpolate user content (workspace names,
/// domain labels) don't accidentally produce different slugs each call.
/// Such dynamic strings will simply fail the i18n lookup and fall back
/// to the original English text — which is the right answer because the
/// interpolated content is user-supplied.
pub fn slugify_command_label(s: &str) -> (r: String)
    ensures
        r@ == slug_of(s@),
{
    let cs = chars_of(s);
    let mut out: Vec<char> = Vec::new();
    let mut last_was_underscore = true;
    let mut i: usize = 0;
    while i < cs.len()
        invariant
            i <= cs.len(),
            cs@ == s@,
            out@ == slug_body(s@.take(i as int)),
            last_was_underscore == (out@.len() == 0 || out@.last() == '_'),
        decreases cs.len() - i,
    {
        let lower = ascii_lower_char(cs[i]);
        proof {
            assert(s@.take(i + 1).drop_last() =~= s@.take(i as int));
            assert(s@.take(i + 1).last() == cs@[i as int]);
        }
        if is_ascii_alphanumeric(lower) {
            out.push(lower);
            last_was_underscore = false;
        } else if !last_was_underscore {
            out.push('_');
            last_was_underscore = true;
        }
        i += 1;
    }
    assert(s@.take(i as int) =~= s@);
    proof {
        lemma_slug_body_shaped(s@);
    }
    if out.len() > 0 && out[out.len() - 1] == '_' {
        out.pop();
    }
    assert(out@ =~= slug_of(s@));
    string_of(&out)
}

/// A translation key and its text in the active language.
#[derive(Debug)]
pub struct Translation {
    pub key: String,
    pub text: String,
}

/// The texts of the active language.
#[derive(Debug)]
pub struct Translations {
    pub entries: Vec<Translation>,
}

/// The text of a key; a key without one stands for itself.
pub open spec fn translated(entries: Seq<Translation>, key: Seq<char>) -> Seq<char>
    decreases entries.len(),
{
    if entries.len() == 0 {
        key
    } else if entries[0].key@ == key {
        entries[0].text@
    } else {
        translated(entries.drop_first(), key)
    }
}

impl Translations {
    pub fn lookup(&self, key: &str) -> (r: String)
        ensures
            r@ == translated(self.entries@, key@),
    {
        let mut i: usize = 0;
        assert(self.entries@.skip(0) =~= self.entries@);
        while i < self.entries.len()
            invariant
                i <= self.entries.len(),
                translated(self.entries@, key@) == translated(self.entries@.skip(i as int), key@),
            decreases self.entries.len() - i,
        {
            if same(self.entries[i].key.as_str(), key) {
                return self.entries[i].text.clone();
            }
            assert(self.entries@.skip(i as int).drop_first() =~= self.entries@.skip(i + 1));
            i += 1;
        }
        key.to_owned()
    }
}

/// The text that stands for `original` under the keys that start with `prefix`:
/// its translation, where there is one, else the text itself.
pub open spec fn localized(prefix: Seq<char>, original: Seq<char>, t: Translations) -> Seq<char> {
    let slug = slug_of(original);
    let key = prefix + slug;
    if slug.len() == 0 || translated(t.entries@, key) == key {
        original
    } else {
        translated(t.entries@, key)
    }
}

fn localize(prefix: &str, original: &str, t: &Translations) -> (r: String)
    ensures
        r@ == localized(prefix@, original@, *t),
{
    let slug = slugify_command_label(original);
    if slug.as_str().is_empty() {
        return original.to_owned();
    }
    let key = concat2(prefix, slug.as_str());
    let text = t.lookup(key.as_str());
    if same(text.as_str(), key.as_str()) {
        original.to_owned()
    } else {
        text
    }
}

/// Look up a localized variant of an English `CommandDef` field.
///
/// `field` is `"brief"` or `"doc"`. The lookup key is
/// `commands.<field>.<slug>` (e.g. `commands.brief.toggle_full_screen`).
/// Where there is no translation the original English string is returned
/// unchanged, so partial translations degrade gracefully into English instead
/// of leaking dotted keys into the UI.
pub fn localize_command_field(field: &str, original: &str, t: &Translations) -> (r: String)
    ensures
        r@ == localized("commands."@ + field@ + "."@, original@, *t),
{
    localize(concat3("commands.", field, ".").as_str(), original, t)
}

/// Display-time translation for a single menubar segment such as
/// `"Edit"` or `"Shell"`. Keys live under `commands.menubar.<slug>` and
/// the same "no translation -> return original" contract applies. The
/// raw English string remains the canonical key used for grouping and
/// sorting.
pub fn localize_menubar_segment(segment: &str, t: &Translations) -> (r: String)
    ensures
        r@ == localized("commands.menubar."@, segment@, *t),
{
    localize("commands.menubar.", segment, t)
}

// ---------------------------------------------------------------------------
// Expansion
// ---------------------------------------------------------------------------

/// A key bound to an action.
#[derive(Debug, PartialEq, Eq)]
pub struct KeyBinding {
    pub mods: Modifiers,
    pub key: KeyCode,
    pub action: KeyAssignment,
}

/// What the catalogue reads of the configuration.
#[derive(Debug)]
pub struct Config {
    pub platform: Platform,
    pub disable_default_key_bindings: bool,
    /// The bindings that the user wrote, resolved.
    pub keys: Vec<KeyBinding>,
    pub launch_menu: Vec<SpawnCommand>,
    /// The names of the encodings that a pane can be set to, in menu order.
    pub pane_encodings: Vec<String>,
    /// The key codes of labels under the active key map preference.
    pub key_table: KeyTable,
    pub translations: Translations,
}

impl Config {
    /// Whether the labels of the catalogue all name keys.
    pub open spec fn wf(self) -> bool {
        names_catalogue_keys(self.key_table)
    }
}

/// A command with its action and its resolved keys.
#[derive(Debug)]
pub struct ExpandedCommand {
    pub brief: String,
    pub doc: String,
    pub action: KeyAssignment,
    pub keys: Vec<(Modifiers, KeyCode)>,
    pub menubar: Vec<String>,
    pub icon: Option<String>,
}

pub struct ExpandedView {
    pub brief: Seq<char>,
    pub doc: Seq<char>,
    pub action: ActionView,
    pub keys: Seq<(u16, KeyCode)>,
    pub menubar: Seq<Seq<char>>,
    pub icon: Option<Seq<char>>,
}

impl View for ExpandedCommand {
    type V = ExpandedView;

    open spec fn view(&self) -> ExpandedView {
        ExpandedView {
            brief: self.brief@,
            doc: self.doc@,
            action: self.action@,
            keys: self.keys@,
            menubar: views(self.menubar@),
            icon: opt_view(self.icon),
        }
    }
}

pub open spec fn opt_expanded(c: Option<ExpandedCommand>) -> Option<ExpandedView> {
    match c {
        Some(command) => Some(command@),
        None => None,
    }
}

/// The models of a list of commands.
pub open spec fn expanded_views(list: Seq<ExpandedCommand>) -> Seq<ExpandedView> {
    list.map_values(|c: ExpandedCommand| c@)
}

/// The expansion of an action. Built-in actions lose their keys where the
/// default bindings are disabled.
pub open spec fn expansion(action: ActionView, config: Config, is_built_in: bool) -> Option<
    ExpandedView,
> {
    match command_of(action, config.platform) {
        None => None,
        Some(def) => Some(
            ExpandedView {
                brief: localized("commands."@ + "brief"@ + "."@, def.brief, config.translations),
                doc: localized("commands."@ + "doc"@ + "."@, def.doc, config.translations),
                action,
                keys: if is_built_in && config.disable_default_key_bindings {
                    seq![]
                } else {
                    permuted(def.keys, config.key_table)
                },
                menubar: def.menubar,
                icon: def.icon,
            },
        ),
    }
}

/// The expansions of the actions that have a command, in order.
pub open spec fn expansions(actions: Seq<ActionView>, config: Config) -> Seq<ExpandedView>
    decreases actions.len(),
{
    if actions.len() == 0 {
        seq![]
    } else {
        let before = expansions(actions.drop_last(), config);
        match expansion(actions.last(), config, true) {
            Some(command) => before.push(command),
            None => before,
        }
    }
}

/// The bindings of a list of commands: each key of each command, in order.
pub open spec fn bindings_of(commands: Seq<ExpandedView>) -> Seq<(u16, KeyCode, ActionView)>
    decreases commands.len(),
{
    if commands.len() == 0 {
        seq![]
    } else {
        let last = commands.last();
        bindings_of(commands.drop_last()) + last.keys.map_values(
            |k: (u16, KeyCode)| (k.0, k.1, last.action),
        )
    }
}

pub open spec fn binding_views(b: Seq<(Modifiers, KeyCode, KeyAssignment)>) -> Seq<
    (u16, KeyCode, ActionView),
> {
    b.map_values(|k: (Modifiers, KeyCode, KeyAssignment)| (k.0, k.1, k.2@))
}

/// Expands each action that has a command.
pub(crate) fn expand_all(actions: Vec<KeyAssignment>, config: &Config) -> (r: Vec<ExpandedCommand>)
    requires
        config.wf(),
    ensures
        expanded_views(r@) == expansions(action_views(actions@), *config),
{
    let mut result: Vec<ExpandedCommand> = Vec::new();
    let mut i: usize = 0;
    assert(expanded_views(result@) =~= seq![]);
    while i < actions.len()
        invariant
            i <= actions.len(),
            config.wf(),
            expanded_views(result@) == expansions(action_views(actions@).take(i as int), *config),
        decreases actions.len() - i,
    {
        let ghost before = expanded_views(result@);
        let ghost now = action_views(actions@).take(i + 1);
        assert(now.drop_last() =~= action_views(actions@).take(i as int));
        assert(now.last() == actions@[i as int]@);
        if let Some(command) = CommandDef::expand_action(actions[i].duplicate(), config, true) {
            let ghost view = command@;
            result.push(command);
            assert(expanded_views(result@) =~= before.push(view));
        }
        i += 1;
    }
    assert(action_views(actions@).take(i as int) =~= action_views(actions@));
    result
}

impl CommandDef {
    /// Produces the list of default key assignments and actions.
    pub fn default_key_assignments(config: &Config) -> (r: Vec<(Modifiers, KeyCode, KeyAssignment)>)
        requires
            config.wf(),
        ensures
            binding_views(r@) == bindings_of(
                expansions(
                    default_actions(config.platform, views(config.pane_encodings@)),
                    *config,
                ),
            ),
    {
        let commands = CommandDef::expanded_commands(config);
        let mut result: Vec<(Modifiers, KeyCode, KeyAssignment)> = Vec::new();
        let mut i: usize = 0;
        assert(binding_views(result@) =~= seq![]);
        while i < commands.len()
            invariant
                i <= commands.len(),
                binding_views(result@) == bindings_of(expanded_views(commands@).take(i as int)),
            decreases commands.len() - i,
        {
            let cmd = &commands[i];
            let ghost before = binding_views(result@);
            let ghost added = cmd@.keys.map_values(|k: (u16, KeyCode)| (k.0, k.1, cmd@.action));
            let mut j: usize = 0;
            assert(before + added.take(0) =~= before);
            while j < cmd.keys.len()
                invariant
                    j <= cmd.keys.len(),
                    added == cmd@.keys.map_values(|k: (u16, KeyCode)| (k.0, k.1, cmd@.action)),
                    binding_views(result@) == before + added.take(j as int),
                decreases cmd.keys.len() - j,
            {
                let ghost mid = result@;
                result.push((cmd.keys[j].0, cmd.keys[j].1, cmd.action.duplicate()));
                assert(binding_views(result@) =~= binding_views(mid).push(added[j as int]));
                assert(before + added.take(j + 1) =~= (before + added.take(j as int)).push(
                    added[j as int],
                ));
                j += 1;
            }
            proof {
                let now = expanded_views(commands@).take(i + 1);
                assert(now.drop_last() =~= expanded_views(commands@).take(i as int));
                assert(now.last() == cmd@);
                assert(added.take(j as int) =~= added);
            }
            i += 1;
        }
        assert(expanded_views(commands@).take(i as int) =~= expanded_views(commands@));
        result
    }

    /// Describes, localizes and binds one action.
    pub fn expand_action(action: KeyAssignment, config: &Config, is_built_in: bool) -> (r: Option<
        ExpandedCommand,
    >)
        requires
            config.wf(),
        ensures
            opt_expanded(r) == expansion(action@, *config, is_built_in),
    {
        match derive_command_from_key_assignment(&action, config.platform) {
            None => None,
            Some(def) => {
                proof {
                    catalogue_labels_resolve(action@, config.platform, config.key_table);
                }
                let keys = if is_built_in && config.disable_default_key_bindings {
                    Vec::new()
                } else {
                    def.permute_keys(&config.key_table)
                };
                Some(
                    ExpandedCommand {
                        brief: localize_command_field(
                            "brief",
                            def.brief.as_str(),
                            &config.translations,
                        ),
                        doc: localize_command_field("doc", def.doc.as_str(), &config.translations),
                        keys,
                        action,
                        menubar: def.menubar,
                        icon: def.icon,
                    },
                )
            },
        }
    }

    /// Produces the complete set of expanded commands.
    pub fn expanded_commands(config: &Config) -> (r: Vec<ExpandedCommand>)
        requires
            config.wf(),
        ensures
            expanded_views(r@) == expansions(
                default_actions(config.platform, views(config.pane_encodings@)),
                *config,
            ),
    {
        expand_all(compute_default_actions(config.platform, &config.pane_encodings), config)
    }
}

// ---------------------------------------------------------------------------
// Default actions
// ---------------------------------------------------------------------------

/// Appends an action to a list.
pub(crate) fn add_action(list: &mut Vec<KeyAssignment>, action: KeyAssignment)
    ensures
        action_views(final(list)@) == action_views(old(list)@).push(action@),
{
    list.push(action);
    assert(action_views(list@) =~= action_views(old(list)@).push(action@));
}

/// The default actions of the Shell menu.
pub open spec fn shell_actions() -> Seq<ActionView> {
    seq![
        ActionView::SpawnTab(DomainView::CurrentPaneDomain),
        ActionView::SpawnWindow,
        ActionView::EmitEvent("kaku-ai-chat"@),
        ActionView::EmitEvent("run-kaku-ai-config"@),
        ActionView::EmitEvent("kaku-launch-lazygit"@),
        ActionView::EmitEvent("kaku-launch-yazi"@),
        ActionView::EmitEvent("kaku-open-remote-files"@),
        ActionView::SplitVertical(plain_command(DomainView::CurrentPaneDomain)),
        ActionView::SplitHorizontal(plain_command(DomainView::CurrentPaneDomain)),
        ActionView::CloseCurrentTab { confirm: true },
        ActionView::CloseCurrentPane { confirm: true },
        ActionView::ReopenLastClosedTab,
        ActionView::RestorePreviousWindow,
        ActionView::DetachDomain(DomainView::CurrentPaneDomain),
        ActionView::ResetTerminal,
    ]
}

fn make_shell_actions() -> (r: Vec<KeyAssignment>)
    ensures
        action_views(r@) == shell_actions(),
{
    let mut list: Vec<KeyAssignment> = Vec::new();
    assert(action_views(list@) =~= Seq::empty());
    add_action(&mut list, KeyAssignment::SpawnTab(SpawnTabDomain::CurrentPaneDomain));
    add_action(&mut list, KeyAssignment::SpawnWindow);
    add_action(&mut list, KeyAssignment::EmitEvent("kaku-ai-chat".to_owned()));
    add_action(&mut list, KeyAssignment::EmitEvent("run-kaku-ai-config".to_owned()));
    add_action(&mut list, KeyAssignment::EmitEvent("kaku-launch-lazygit".to_owned()));
    add_action(&mut list, KeyAssignment::EmitEvent("kaku-launch-yazi".to_owned()));
    add_action(&mut list, KeyAssignment::EmitEvent("kaku-open-remote-files".to_owned()));
    add_action(
        &mut list,
        KeyAssignment::SplitVertical(SpawnCommand::in_domain(SpawnTabDomain::CurrentPaneDomain)),
    );
    add_action(
        &mut list,
        KeyAssignment::SplitHorizontal(SpawnCommand::in_domain(SpawnTabDomain::CurrentPaneDomain)),
    );
    add_action(&mut list, KeyAssignment::CloseCurrentTab { confirm: true });
    add_action(&mut list, KeyAssignment::CloseCurrentPane { confirm: true });
    add_action(&mut list, KeyAssignment::ReopenLastClosedTab);
    add_action(&mut list, KeyAssignment::RestorePreviousWindow);
    add_action(&mut list, KeyAssignment::DetachDomain(SpawnTabDomain::CurrentPaneDomain));
    add_action(&mut list, KeyAssignment::ResetTerminal);
    list
}

/// The default actions of the Edit menu, after the clipboard.
pub open spec fn edit_actions() -> Seq<ActionView> {
    seq![
        ActionView::ClearScrollback(ScrollbackEraseMode::ScrollbackOnly),
        ActionView::ClearScrollback(ScrollbackEraseMode::ScrollbackAndViewport),
        ActionView::QuickSelect,
        ActionView::CharSelect(seq![]),
        ActionView::ActivateCopyMode,
        ActionView::ClearKeyTableStack,
        ActionView::ActivateCommandPalette,
    ]
}

fn make_edit_actions() -> (r: Vec<KeyAssignment>)
    ensures
        action_views(r@) == edit_actions(),
{
    let mut list: Vec<KeyAssignment> = Vec::new();
    assert(action_views(list@) =~= Seq::empty());
    add_action(&mut list, KeyAssignment::ClearScrollback(ScrollbackEraseMode::ScrollbackOnly));
    add_action(
        &mut list,
        KeyAssignment::ClearScrollback(ScrollbackEraseMode::ScrollbackAndViewport),
    );
    add_action(&mut list, KeyAssignment::QuickSelect);
    add_action(&mut list, KeyAssignment::CharSelect(String::new()));
    add_action(&mut list, KeyAssignment::ActivateCopyMode);
    add_action(&mut list, KeyAssignment::ClearKeyTableStack);
    add_action(&mut list, KeyAssignment::ActivateCommandPalette);
    list
}

/// The default actions of the View menu.
pub open spec fn view_actions() -> Seq<ActionView> {
    seq![
        ActionView::DecreaseFontSize,
        ActionView::IncreaseFontSize,
        ActionView::ResetFontSize,
        ActionView::ResetFontAndWindowSize,
        ActionView::ScrollByPage(PageAmountView::OneUp),
        ActionView::ScrollByPage(PageAmountView::OneDown),
        ActionView::ScrollToTop,
        ActionView::ScrollToBottom,
    ]
}

fn make_view_actions() -> (r: Vec<KeyAssignment>)
    ensures
        action_views(r@) == view_actions(),
{
    let mut list: Vec<KeyAssignment> = Vec::new();
    assert(action_views(list@) =~= Seq::empty());
    add_action(&mut list, KeyAssignment::DecreaseFontSize);
    add_action(&mut list, KeyAssignment::IncreaseFontSize);
    add_action(&mut list, KeyAssignment::ResetFontSize);
    add_action(&mut list, KeyAssignment::ResetFontAndWindowSize);
    add_action(&mut list, KeyAssignment::ScrollByPage(PageAmount::OneUp));
    add_action(&mut list, KeyAssignment::ScrollByPage(PageAmount::OneDown));
    add_action(&mut list, KeyAssignment::ScrollToTop);
    add_action(&mut list, KeyAssignment::ScrollToBottom);
    list
}

/// The default actions of the Window menu: windows and pane selection.
pub open spec fn window_actions() -> Seq<ActionView> {
    seq![
        ActionView::ToggleFullScreen,
        ActionView::CenterWindow,
        ActionView::MaximizeWindow,
        ActionView::Hide,
        ActionView::ToggleAlwaysOnTop,
        ActionView::Search(PatternView::CurrentSelectionOrEmptyString),
        ActionView::PaneSelect(
            PaneSelectView {
                alphabet: seq![],
                mode: PaneSelectMode::Activate,
                show_pane_ids: false,
            },
        ),
        ActionView::PaneSelect(
            PaneSelectView {
                alphabet: seq![],
                mode: PaneSelectMode::SwapWithActive,
                show_pane_ids: false,
            },
        ),
        ActionView::PaneSelect(
            PaneSelectView {
                alphabet: seq![],
                mode: PaneSelectMode::SwapWithActiveKeepFocus,
                show_pane_ids: false,
            },
        ),
        ActionView::PaneSelect(
            PaneSelectView {
                alphabet: seq![],
                mode: PaneSelectMode::MoveToNewTab,
                show_pane_ids: false,
            },
        ),
        ActionView::PaneSelect(
            PaneSelectView {
                alphabet: seq![],
                mode: PaneSelectMode::MoveToNewWindow,
                show_pane_ids: false,
            },
        ),
        ActionView::RotatePanes(RotationDirection::Clockwise),
        ActionView::RotatePanes(RotationDirection::CounterClockwise),
        ActionView::TogglePaneSplitDirection,
    ]
}

fn make_window_actions() -> (r: Vec<KeyAssignment>)
    ensures
        action_views(r@) == window_actions(),
{
    let mut list: Vec<KeyAssignment> = Vec::new();
    assert(action_views(list@) =~= Seq::empty());
    add_action(&mut list, KeyAssignment::ToggleFullScreen);
    add_action(&mut list, KeyAssignment::CenterWindow);
    add_action(&mut list, KeyAssignment::MaximizeWindow);
    add_action(&mut list, KeyAssignment::Hide);
    add_action(&mut list, KeyAssignment::ToggleAlwaysOnTop);
    add_action(&mut list, KeyAssignment::Search(Pattern::CurrentSelectionOrEmptyString));
    add_action(
        &mut list,
        KeyAssignment::PaneSelect(
            PaneSelectArguments {
                alphabet: String::new(),
                mode: PaneSelectMode::Activate,
                show_pane_ids: false,
            },
        ),
    );
    add_action(
        &mut list,
        KeyAssignment::PaneSelect(
            PaneSelectArguments {
                alphabet: String::new(),
                mode: PaneSelectMode::SwapWithActive,
                show_pane_ids: false,
            },
        ),
    );
    add_action(
        &mut list,
        KeyAssignment::PaneSelect(
            PaneSelectArguments {
                alphabet: String::new(),
                mode: PaneSelectMode::SwapWithActiveKeepFocus,
                show_pane_ids: false,
            },
        ),
    );
    add_action(
        &mut list,
        KeyAssignment::PaneSelect(
            PaneSelectArguments {
                alphabet: String::new(),
                mode: PaneSelectMode::MoveToNewTab,
                show_pane_ids: false,
            },
        ),
    );
    add_action(
        &mut list,
        KeyAssignment::PaneSelect(
            PaneSelectArguments {
                alphabet: String::new(),
                mode: PaneSelectMode::MoveToNewWindow,
                show_pane_ids: false,
            },
        ),
    );
    add_action(&mut list, KeyAssignment::RotatePanes(RotationDirection::Clockwise));
    add_action(&mut list, KeyAssignment::RotatePanes(RotationDirection::CounterClockwise));
    add_action(&mut list, KeyAssignment::TogglePaneSplitDirection);
    list
}

/// The default actions of the Window menu: tabs.
pub open spec fn tab_actions() -> Seq<ActionView> {
    seq![
        ActionView::ActivateTab(0),
        ActionView::ActivateTab(1),
        ActionView::ActivateTab(2),
        ActionView::ActivateTab(3),
        ActionView::ActivateTab(4),
        ActionView::ActivateTab(5),
        ActionView::ActivateTab(6),
        ActionView::ActivateTab(7),
        ActionView::ActivateTab(-1 as isize),
        ActionView::ActivateTabRelative(-1 as isize),
        ActionView::ActivateTabRelative(1),
        ActionView::ActivateWindowRelative(-1 as isize),
        ActionView::ActivateWindowRelative(1),
        ActionView::MoveTabRelative(-1 as isize),
        ActionView::MoveTabRelative(1),
        ActionView::MoveTabToNewWindow,
    ]
}

fn make_tab_actions() -> (r: Vec<KeyAssignment>)
    ensures
        action_views(r@) == tab_actions(),
{
    let mut list: Vec<KeyAssignment> = Vec::new();
    assert(action_views(list@) =~= Seq::empty());
    add_action(&mut list, KeyAssignment::ActivateTab(0));
    add_action(&mut list, KeyAssignment::ActivateTab(1));
    add_action(&mut list, KeyAssignment::ActivateTab(2));
    add_action(&mut list, KeyAssignment::ActivateTab(3));
    add_action(&mut list, KeyAssignment::ActivateTab(4));
    add_action(&mut list, KeyAssignment::ActivateTab(5));
    add_action(&mut list, KeyAssignment::ActivateTab(6));
    add_action(&mut list, KeyAssignment::ActivateTab(7));
    add_action(&mut list, KeyAssignment::ActivateTab(-1));
    add_action(&mut list, KeyAssignment::ActivateTabRelative(-1));
    add_action(&mut list, KeyAssignment::ActivateTabRelative(1));
    add_action(&mut list, KeyAssignment::ActivateWindowRelative(-1));
    add_action(&mut list, KeyAssignment::ActivateWindowRelative(1));
    add_action(&mut list, KeyAssignment::MoveTabRelative(-1));
    add_action(&mut list, KeyAssignment::MoveTabRelative(1));
    add_action(&mut list, KeyAssignment::MoveTabToNewWindow);
    list
}

/// The default actions of the Window menu: panes, and the Help menu.
pub open spec fn pane_actions() -> Seq<ActionView> {
    seq![
        ActionView::AdjustPaneSize(PaneDirection::Left, 5),
        ActionView::AdjustPaneSize(PaneDirection::Right, 5),
        ActionView::AdjustPaneSize(PaneDirection::Up, 5),
        ActionView::AdjustPaneSize(PaneDirection::Down, 5),
        ActionView::ActivatePaneDirection(PaneDirection::Left),
        ActionView::ActivatePaneDirection(PaneDirection::Right),
        ActionView::ActivatePaneDirection(PaneDirection::Up),
        ActionView::ActivatePaneDirection(PaneDirection::Down),
        ActionView::TogglePaneZoomState,
        ActionView::ActivateLastTab,
        ActionView::ShowTabNavigator,
        ActionView::OpenUri("https://github.com/tw93/Kaku"@),
        ActionView::OpenUri("https://github.com/tw93/Kaku/issues/"@),
        ActionView::ShowDebugOverlay,
        ActionView::OpenLinkAtMouseCursor,
    ]
}

fn make_pane_actions() -> (r: Vec<KeyAssignment>)
    ensures
        action_views(r@) == pane_actions(),
{
    let mut list: Vec<KeyAssignment> = Vec::new();
    assert(action_views(list@) =~= Seq::empty());
    add_action(&mut list, KeyAssignment::AdjustPaneSize(PaneDirection::Left, 5));
    add_action(&mut list, KeyAssignment::AdjustPaneSize(PaneDirection::Right, 5));
    add_action(&mut list, KeyAssignment::AdjustPaneSize(PaneDirection::Up, 5));
    add_action(&mut list, KeyAssignment::AdjustPaneSize(PaneDirection::Down, 5));
    add_action(&mut list, KeyAssignment::ActivatePaneDirection(PaneDirection::Left));
    add_action(&mut list, KeyAssignment::ActivatePaneDirection(PaneDirection::Right));
    add_action(&mut list, KeyAssignment::ActivatePaneDirection(PaneDirection::Up));
    add_action(&mut list, KeyAssignment::ActivatePaneDirection(PaneDirection::Down));
    add_action(&mut list, KeyAssignment::TogglePaneZoomState);
    add_action(&mut list, KeyAssignment::ActivateLastTab);
    add_action(&mut list, KeyAssignment::ShowTabNavigator);
    add_action(&mut list, KeyAssignment::OpenUri("https://github.com/tw93/Kaku".to_owned()));
    add_action(
        &mut list,
        KeyAssignment::OpenUri("https://github.com/tw93/Kaku/issues/".to_owned()),
    );
    add_action(&mut list, KeyAssignment::ShowDebugOverlay);
    add_action(&mut list, KeyAssignment::OpenLinkAtMouseCursor);
    list
}

/// The default actions of the application menu and of the clipboard.
pub open spec fn application_actions(platform: Platform) -> Seq<ActionView> {
    match platform {
        Platform::MacOs => seq![ActionView::HideApplication, ActionView::QuitApplication],
        Platform::Other => Seq::empty(),
    }
}

pub open spec fn clipboard_actions(platform: Platform) -> Seq<ActionView> {
    match platform {
        Platform::MacOs => seq![
            ActionView::CopyTo(ClipboardCopyDestination::Clipboard),
            ActionView::PasteFrom(ClipboardPasteSource::Clipboard),
            ActionView::SendStringIfNotAltScreen(seq![UNDO_CHAR]),
        ],
        Platform::Other => seq![
            ActionView::PasteFrom(ClipboardPasteSource::PrimarySelection),
            ActionView::CopyTo(ClipboardCopyDestination::PrimarySelection),
            ActionView::CopyTo(ClipboardCopyDestination::Clipboard),
            ActionView::PasteFrom(ClipboardPasteSource::Clipboard),
        ],
    }
}

/// One action for each encoding.
pub open spec fn encoding_actions(encodings: Seq<Seq<char>>) -> Seq<ActionView> {
    encodings.map_values(|name: Seq<char>| ActionView::SetPaneEncoding(name))
}

/// The actions of the default key assignments and the command palette, ordered
/// by their position within the various menus.
pub open spec fn default_actions(platform: Platform, encodings: Seq<Seq<char>>) -> Seq<ActionView> {
    application_actions(platform) + shell_actions() + clipboard_actions(platform) + edit_actions()
        + view_actions() + window_actions() + tab_actions() + pane_actions() + encoding_actions(
        encodings,
    )
}

fn make_application_actions(platform: Platform) -> (r: Vec<KeyAssignment>)
    ensures
        action_views(r@) == application_actions(platform),
{
    let mut list: Vec<KeyAssignment> = Vec::new();
    assert(action_views(list@) =~= Seq::empty());
    if platform == Platform::MacOs {
        add_action(&mut list, KeyAssignment::HideApplication);
        add_action(&mut list, KeyAssignment::QuitApplication);
    }
    list
}

fn make_clipboard_actions(platform: Platform) -> (r: Vec<KeyAssignment>)
    ensures
        action_views(r@) == clipboard_actions(platform),
{
    let mut list: Vec<KeyAssignment> = Vec::new();
    assert(action_views(list@) =~= Seq::empty());
    if platform == Platform::Other {
        add_action(
            &mut list,
            KeyAssignment::PasteFrom(ClipboardPasteSource::PrimarySelection),
        );
        add_action(&mut list, KeyAssignment::CopyTo(ClipboardCopyDestination::PrimarySelection));
    }
    add_action(&mut list, KeyAssignment::CopyTo(ClipboardCopyDestination::Clipboard));
    add_action(&mut list, KeyAssignment::PasteFrom(ClipboardPasteSource::Clipboard));
    if platform == Platform::MacOs {
        // Cmd+Z at the shell prompt: forward Ctrl+_ (0x1f), which zsh (ZLE
        // `undo`) and bash (readline `undo`) interpret as line-editor undo.
        let mut undo = String::new();
        undo.push(UNDO_CHAR);
        assert(undo@ =~= seq![UNDO_CHAR]);
        add_action(&mut list, KeyAssignment::SendStringIfNotAltScreen(undo));
    }
    list
}

fn make_encoding_actions(encodings: &Vec<String>) -> (r: Vec<KeyAssignment>)
    ensures
        action_views(r@) == encoding_actions(views(encodings@)),
{
    let mut list: Vec<KeyAssignment> = Vec::new();
    let mut i: usize = 0;
    assert(action_views(list@) =~= encoding_actions(views(encodings@)).take(0));
    while i < encodings.len()
        invariant
            i <= encodings.len(),
            action_views(list@) == encoding_actions(views(encodings@)).take(i as int),
        decreases encodings.len() - i,
    {
        add_action(&mut list, KeyAssignment::SetPaneEncoding(encodings[i].clone()));
        i += 1;
        assert(action_views(list@) =~= encoding_actions(views(encodings@)).take(i as int));
    }
    assert(action_views(list@) =~= encoding_actions(views(encodings@)));
    list
}

pub(crate) fn append_actions(list: &mut Vec<KeyAssignment>, more: Vec<KeyAssignment>)
    ensures
        action_views(final(list)@) == action_views(old(list)@) + action_views(more@),
{
    let mut rest = more;
    list.append(&mut rest);
    assert(action_views(list@) =~= action_views(old(list)@) + action_views(more@));
}

/// Returns a list of key assignment actions that should be
/// included in the default key assignments and command palette.
pub fn compute_default_actions(platform: Platform, encodings: &Vec<String>) -> (r: Vec<
    KeyAssignment,
>)
    ensures
        action_views(r@) == default_actions(platform, views(encodings@)),
{
    let mut actions = make_application_actions(platform);
    append_actions(&mut actions, make_shell_actions());
    append_actions(&mut actions, make_clipboard_actions(platform));
    append_actions(&mut actions, make_edit_actions());
    append_actions(&mut actions, make_view_actions());
    append_actions(&mut actions, make_window_actions());
    append_actions(&mut actions, make_tab_actions());
    append_actions(&mut actions, make_pane_actions());
    append_actions(&mut actions, make_encoding_actions(encodings));
    actions
}

proof fn lemma_clipboard_or_window_labels(action: ActionView, platform: Platform)
    ensures
        clipboard_or_window_command(action, platform) matches Some(c) ==> labels_plain(c.keys),
{
    reveal_strlit("c");
    reveal_strlit("v");
    reveal_strlit("f");
    reveal_strlit("m");
    reveal_strlit("h");
    reveal_strlit("n");
}

proof fn lemma_screen_labels(action: ActionView, platform: Platform)
    ensures
        screen_command(action, platform) matches Some(c) ==> labels_plain(c.keys),
{
    reveal_strlit("k");
    reveal_strlit("f");
    reveal_strlit("l");
    reveal_strlit("u");
    reveal_strlit("p");
    reveal_strlit("t");
    reveal_strlit("n");
}

proof fn lemma_font_or_spawn_labels(action: ActionView, platform: Platform)
    ensures
        font_or_spawn_command(action, platform) matches Some(c) ==> labels_plain(c.keys),
{
    reveal_strlit("-");
    reveal_strlit("=");
    reveal_strlit("0");
    reveal_strlit("t");
}

proof fn lemma_direct_target_labels(action: ActionView, platform: Platform)
    ensures
        direct_target_command(action, platform) matches Some(c) ==> labels_plain(c.keys),
{
    reveal_strlit("9");
    reveal_strlit("l");
    reveal_strlit("a");
    reveal_strlit("e");
    reveal_strlit("g");
    reveal_strlit("y");
    reveal_strlit("r");
}

proof fn lemma_close_or_window_labels(action: ActionView, platform: Platform)
    ensures
        close_or_window_command(action, platform) matches Some(c) ==> labels_plain(c.keys),
{
    reveal_strlit("w");
    reveal_strlit("t");
    reveal_strlit("`");
}

proof fn lemma_tab_labels(action: ActionView, platform: Platform)
    ensures
        tab_command(action, platform) matches Some(c) ==> labels_plain(c.keys),
{
    reveal_strlit("[");
    reveal_strlit("]");
    reveal_strlit("r");
    reveal_strlit("q");
}

proof fn lemma_scroll_labels(action: ActionView, platform: Platform)
    ensures
        scroll_command(action, platform) matches Some(c) ==> labels_plain(c.keys),
{

}

proof fn lemma_split_or_resize_labels(action: ActionView, platform: Platform)
    ensures
        split_or_resize_command(action, platform) matches Some(c) ==> labels_plain(c.keys),
{
    reveal_strlit("x");
    reveal_strlit("d");
}

proof fn lemma_pane_focus_labels(action: ActionView, platform: Platform)
    ensures
        pane_focus_command(action, platform) matches Some(c) ==> labels_plain(c.keys),
{

}

proof fn lemma_navigation_or_domain_labels(action: ActionView, platform: Platform)
    ensures
        navigation_or_domain_command(action, platform) matches Some(c) ==> labels_plain(c.keys),
{
    reveal_strlit("t");
    reveal_strlit("o");
}

proof fn lemma_text_labels(action: ActionView, platform: Platform)
    ensures
        text_command(action, platform) matches Some(c) ==> labels_plain(c.keys),
{
    reveal_strlit("z");
}

proof fn lemma_selection_labels(action: ActionView, platform: Platform)
    ensures
        selection_command(action, platform) matches Some(c) ==> labels_plain(c.keys),
{

}

proof fn lemma_workspace_labels(action: ActionView, platform: Platform)
    ensures
        workspace_command(action, platform) matches Some(c) ==> labels_plain(c.keys),
{

}

proof fn lemma_pane_state_labels(action: ActionView, platform: Platform)
    ensures
        pane_state_command(action, platform) matches Some(c) ==> labels_plain(c.keys),
{
    reveal_strlit("s");
    reveal_strlit("p");
}

proof fn lemma_labels(action: ActionView, platform: Platform)
    ensures
        command_of(action, platform) matches Some(c) ==> labels_plain(c.keys),
{
    lemma_clipboard_or_window_labels(action, platform);
    lemma_screen_labels(action, platform);
    lemma_font_or_spawn_labels(action, platform);
    lemma_direct_target_labels(action, platform);
    lemma_close_or_window_labels(action, platform);
    lemma_tab_labels(action, platform);
    lemma_scroll_labels(action, platform);
    lemma_split_or_resize_labels(action, platform);
    lemma_pane_focus_labels(action, platform);
    lemma_navigation_or_domain_labels(action, platform);
    lemma_text_labels(action, platform);
    lemma_selection_labels(action, platform);
    lemma_workspace_labels(action, platform);
    lemma_pane_state_labels(action, platform);
}

/// Every label that the catalogue binds names a key, as does its shifted form,
/// in any table that lists the named keys.
pub proof fn catalogue_labels_resolve(action: ActionView, platform: Platform, table: KeyTable)
    requires
        names_catalogue_keys(table),
    ensures
        command_of(action, platform) matches Some(c) ==> {
            &&& chords_known(c.keys, table)
            &&& forall|i: int|
                0 <= i < c.keys.len() ==> table.knows(shifted_label(#[trigger] c.keys[i].1))
        },
{
    lemma_labels(action, platform);
}

/// The catalogue gives single characters in their lowercase form: the shifted
/// forms of a chord are synthesized from it.
pub proof fn catalogue_labels_are_lowercase(action: ActionView, platform: Platform)
    ensures
        command_of(action, platform) matches Some(c) ==> forall|i: int|
            0 <= i < c.keys.len() && (#[trigger] c.keys[i].1).len() == 1 ==> !is_upper(
                c.keys[i].1[0],
            ),
{
    lemma_labels(action, platform);
    reveal_strlit("Insert");
    reveal_strlit("Copy");
    reveal_strlit("Paste");
    reveal_strlit("UpArrow");
    reveal_strlit("DownArrow");
    reveal_strlit("LeftArrow");
    reveal_strlit("RightArrow");
    reveal_strlit("Space");
    reveal_strlit("Tab");
    reveal_strlit("PageUp");
    reveal_strlit("PageDown");
    reveal_strlit("Home");
    reveal_strlit("End");
    reveal_strlit("Enter");
}

pub open spec fn all_described(actions: Seq<ActionView>, platform: Platform) -> bool {
    forall|i: int| 0 <= i < actions.len() ==> command_of(#[trigger] actions[i], platform) is Some
}

proof fn lemma_event_offered(name: Seq<char>)
    requires
        name.len() > 0,
        name[0] != 'u',
    ensures
        !internal_event(name),
{
    reveal_strlit("user-defined-");
    if internal_event(name) {
        assert(name.subrange(0, "user-defined-"@.len() as int)[0] == name[0]);
    }
}

proof fn lemma_application_actions_described(platform: Platform)
    ensures
        all_described(application_actions(platform), platform),
{
    let actions = application_actions(platform);
    assert forall|i: int| 0 <= i < actions.len() implies command_of(
        #[trigger] actions[i],
        platform,
    ) is Some by {
    }
}

proof fn lemma_shell_actions_described(platform: Platform)
    ensures
        all_described(shell_actions(), platform),
{
    reveal_strlit("kaku-ai-chat");
    reveal_strlit("run-kaku-ai-config");
    reveal_strlit("kaku-launch-lazygit");
    reveal_strlit("kaku-launch-yazi");
    reveal_strlit("kaku-open-remote-files");
    lemma_event_offered("kaku-ai-chat"@);
    lemma_event_offered("run-kaku-ai-config"@);
    lemma_event_offered("kaku-launch-lazygit"@);
    lemma_event_offered("kaku-launch-yazi"@);
    lemma_event_offered("kaku-open-remote-files"@);
    let actions = shell_actions();
    assert forall|i: int| 0 <= i < actions.len() implies command_of(
        #[trigger] actions[i],
        platform,
    ) is Some by {
    }
}

proof fn lemma_clipboard_actions_described(platform: Platform)
    ensures
        all_described(clipboard_actions(platform), platform),
{
    let actions = clipboard_actions(platform);
    assert forall|i: int| 0 <= i < actions.len() implies command_of(
        #[trigger] actions[i],
        platform,
    ) is Some by {
    }
}

proof fn lemma_edit_actions_described(platform: Platform)
    ensures
        all_described(edit_actions(), platform),
{
    let actions = edit_actions();
    assert forall|i: int| 0 <= i < actions.len() implies command_of(
        #[trigger] actions[i],
        platform,
    ) is Some by {
    }
}

proof fn lemma_view_actions_described(platform: Platform)
    ensures
        all_described(view_actions(), platform),
{
    let actions = view_actions();
    assert forall|i: int| 0 <= i < actions.len() implies command_of(
        #[trigger] actions[i],
        platform,
    ) is Some by {
    }
}

proof fn lemma_window_actions_described(platform: Platform)
    ensures
        all_described(window_actions(), platform),
{
    let actions = window_actions();
    assert forall|i: int| 0 <= i < actions.len() implies command_of(
        #[trigger] actions[i],
        platform,
    ) is Some by {
    }
}

proof fn lemma_tab_actions_described(platform: Platform)
    ensures
        all_described(tab_actions(), platform),
{
    let actions = tab_actions();
    assert forall|i: int| 0 <= i < actions.len() implies command_of(
        #[trigger] actions[i],
        platform,
    ) is Some by {
    }
}

proof fn lemma_pane_actions_described(platform: Platform)
    ensures
        all_described(pane_actions(), platform),
{
    let actions = pane_actions();
    assert forall|i: int| 0 <= i < actions.len() implies command_of(
        #[trigger] actions[i],
        platform,
    ) is Some by {
    }
}

/// Every default action has a command that describes it.
pub proof fn default_actions_are_described(platform: Platform, encodings: Seq<Seq<char>>)
    ensures
        all_described(default_actions(platform, encodings), platform),
{
    lemma_application_actions_described(platform);
    lemma_shell_actions_described(platform);
    lemma_clipboard_actions_described(platform);
    lemma_edit_actions_described(platform);
    lemma_view_actions_described(platform);
    lemma_window_actions_described(platform);
    lemma_tab_actions_described(platform);
    lemma_pane_actions_described(platform);
    let shell = application_actions(platform) + shell_actions();
    let clipboard = shell + clipboard_actions(platform);
    let edit = clipboard + edit_actions();
    let view = edit + view_actions();
    let window = view + window_actions();
    let tab = window + tab_actions();
    let pane = tab + pane_actions();
    lemma_described_concat(application_actions(platform), shell_actions(), platform);
    lemma_described_concat(shell, clipboard_actions(platform), platform);
    lemma_described_concat(clipboard, edit_actions(), platform);
    lemma_described_concat(edit, view_actions(), platform);
    lemma_described_concat(view, window_actions(), platform);
    lemma_described_concat(window, tab_actions(), platform);
    lemma_described_concat(tab, pane_actions(), platform);
    let rest = encoding_actions(encodings);
    assert(all_described(rest, platform)) by {
        assert forall|i: int| 0 <= i < rest.len() implies command_of(
            #[trigger] rest[i],
            platform,
        ) is Some by {
            assert(rest[i] == ActionView::SetPaneEncoding(encodings[i]));
        }
    }
    lemma_described_concat(pane, rest, platform);
}

proof fn lemma_described_concat(a: Seq<ActionView>, b: Seq<ActionView>, platform: Platform)
    requires
        all_described(a, platform),
        all_described(b, platform),
    ensures
        all_described(a + b, platform),
{
    let both = a + b;
    assert forall|i: int| 0 <= i < both.len() implies command_of(
        #[trigger] both[i],
        platform,
    ) is Some by {
        if i < a.len() {
            assert(both[i] == a[i]);
        } else {
            assert(both[i] == b[i - a.len()]);
        }
    }
}

/// The input broadcast toggles and the handlers that are internal to a user's
/// configuration have no command, so neither the palette nor the menubar
/// offers them.
pub proof fn withheld_actions_have_no_command(name: Seq<char>, platform: Platform)
    ensures
        command_of(ActionView::ToggleCurrentTabPanesInputBroadcast, platform) is None,
        command_of(ActionView::ToggleAllPanesInputBroadcast, platform) is None,
        internal_event(name) ==> command_of(ActionView::EmitEvent(name), platform) is None,
{
}

} // verus!
