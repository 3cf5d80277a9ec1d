//! The command palette: which commands it offers, under which keys, and in
//! which order.
use crate::commands::{
    CommandDef, Config, ExpandedCommand, ExpandedView, KeyBinding, Platform, add_action,
    append_actions, command_of, derive_command_from_key_assignment, expand_all, expanded_views,
    expansion, expansions,
};
use crate::key_assignment::{
    ActionView, ClipboardCopyDestination, ClipboardPasteSource, DomainView, KeyAssignment,
    Pattern, PatternView, ScrollbackEraseMode, SpawnCommand, SpawnTabDomain, action_views,
    plain_command,
};
use crate::keys::{KeyCode, Modifiers, SUPER, contains_mods, has_mods};
use crate::order::{
    SortKey, SortKeyView, index_views, is_stable_order, key_le, key_views, precedes, reordered,
    sort_order, stable_order, stable_order_sorts,
};
use crate::text::{clone_opt, clone_strings, lowered, same, to_ascii_lowercase, trim, trimmed};
use vstd::prelude::*;
use vstd::string::*;

verus! {

/// The keys in effect, in the order in which their tables were walked.
#[derive(Debug)]
pub struct InputMap {
    /// The default key table.
    pub default: Vec<KeyBinding>,
    /// The actions of the named key tables.
    pub named: Vec<KeyAssignment>,
    /// The bindings that hold everywhere in the application.
    pub app_wide: Vec<KeyBinding>,
}

/// The model of a binding.
pub struct BindingView {
    pub mods: u16,
    pub key: KeyCode,
    pub action: ActionView,
}

impl View for KeyBinding {
    type V = BindingView;

    open spec fn view(&self) -> BindingView {
        BindingView { mods: self.mods, key: self.key, action: self.action@ }
    }
}

pub open spec fn bound(keys: Seq<KeyBinding>) -> Seq<BindingView> {
    keys.map_values(|k: KeyBinding| k@)
}

impl ExpandedCommand {
    pub fn duplicate(&self) -> (r: ExpandedCommand)
        ensures
            r@ == self@,
    {
        let mut keys: Vec<(Modifiers, KeyCode)> = Vec::new();
        let mut i: usize = 0;
        while i < self.keys.len()
            invariant
                i <= self.keys.len(),
                keys@ == self.keys@.take(i as int),
            decreases self.keys.len() - i,
        {
            keys.push((self.keys[i].0, self.keys[i].1));
            i += 1;
            assert(keys@ =~= self.keys@.take(i as int));
        }
        assert(keys@ =~= self.keys@);
        ExpandedCommand {
            brief: self.brief.clone(),
            doc: self.doc.clone(),
            action: self.action.duplicate(),
            keys,
            menubar: clone_strings(&self.menubar),
            icon: clone_opt(&self.icon),
        }
    }
}

// ---------------------------------------------------------------------------
// Which actions
// ---------------------------------------------------------------------------

/// The palette actions of the Shell menu.
pub open spec fn core_shell_actions() -> Seq<ActionView> {
    seq![
        ActionView::SpawnWindow,
        ActionView::SpawnTab(DomainView::CurrentPaneDomain),
        ActionView::SplitHorizontal(plain_command(DomainView::CurrentPaneDomain)),
        ActionView::SplitVertical(plain_command(DomainView::CurrentPaneDomain)),
        ActionView::CloseCurrentTab { confirm: true },
        ActionView::CloseCurrentPane { confirm: true },
        ActionView::RestorePreviousWindow,
    ]
}

fn make_core_shell_actions() -> (r: Vec<KeyAssignment>)
    ensures
        action_views(r@) == core_shell_actions(),
{
    let mut list: Vec<KeyAssignment> = Vec::new();
    assert(action_views(list@) =~= Seq::empty());
    add_action(&mut list, KeyAssignment::SpawnWindow);
    add_action(&mut list, KeyAssignment::SpawnTab(SpawnTabDomain::CurrentPaneDomain));
    add_action(&mut list, KeyAssignment::SplitHorizontal(SpawnCommand::default()));
    add_action(&mut list, KeyAssignment::SplitVertical(SpawnCommand::default()));
    add_action(&mut list, KeyAssignment::CloseCurrentTab { confirm: true });
    add_action(&mut list, KeyAssignment::CloseCurrentPane { confirm: true });
    add_action(&mut list, KeyAssignment::RestorePreviousWindow);
    list
}

/// The palette actions of the Edit menu.
pub open spec fn core_edit_actions() -> Seq<ActionView> {
    seq![
        ActionView::CopyTo(ClipboardCopyDestination::Clipboard),
        ActionView::PasteFrom(ClipboardPasteSource::Clipboard),
        ActionView::Search(PatternView::CurrentSelectionOrEmptyString),
        ActionView::QuickSelect,
        ActionView::ClearScrollback(ScrollbackEraseMode::ScrollbackOnly),
    ]
}

fn make_core_edit_actions() -> (r: Vec<KeyAssignment>)
    ensures
        action_views(r@) == core_edit_actions(),
{
    let mut list: Vec<KeyAssignment> = Vec::new();
    assert(action_views(list@) =~= Seq::empty());
    add_action(&mut list, KeyAssignment::CopyTo(ClipboardCopyDestination::Clipboard));
    add_action(&mut list, KeyAssignment::PasteFrom(ClipboardPasteSource::Clipboard));
    add_action(&mut list, KeyAssignment::Search(Pattern::CurrentSelectionOrEmptyString));
    add_action(&mut list, KeyAssignment::QuickSelect);
    add_action(&mut list, KeyAssignment::ClearScrollback(ScrollbackEraseMode::ScrollbackOnly));
    list
}

/// The palette actions of the View menu.
pub open spec fn core_view_actions() -> Seq<ActionView> {
    seq![
        ActionView::ResetFontSize,
        ActionView::IncreaseFontSize,
        ActionView::DecreaseFontSize,
        ActionView::ResetFontAndWindowSize,
        ActionView::ScrollToTop,
        ActionView::ScrollToBottom,
    ]
}

fn make_core_view_actions() -> (r: Vec<KeyAssignment>)
    ensures
        action_views(r@) == core_view_actions(),
{
    let mut list: Vec<KeyAssignment> = Vec::new();
    assert(action_views(list@) =~= Seq::empty());
    add_action(&mut list, KeyAssignment::ResetFontSize);
    add_action(&mut list, KeyAssignment::IncreaseFontSize);
    add_action(&mut list, KeyAssignment::DecreaseFontSize);
    add_action(&mut list, KeyAssignment::ResetFontAndWindowSize);
    add_action(&mut list, KeyAssignment::ScrollToTop);
    add_action(&mut list, KeyAssignment::ScrollToBottom);
    list
}

/// The palette actions of the Window menu.
pub open spec fn core_window_actions() -> Seq<ActionView> {
    seq![
        ActionView::ToggleFullScreen,
        ActionView::CenterWindow,
        ActionView::MaximizeWindow,
        ActionView::Hide,
        ActionView::ToggleAlwaysOnTop,
        ActionView::ToggleAlwaysOnBottom,
        ActionView::ActivateWindowRelative(-1 as isize),
        ActionView::ActivateWindowRelative(1),
        ActionView::ActivateTabRelative(-1 as isize),
        ActionView::ActivateTabRelative(1),
        ActionView::ActivateLastTab,
        ActionView::MoveTabRelative(-1 as isize),
        ActionView::MoveTabRelative(1),
        ActionView::MoveTabToNewWindow,
        ActionView::TogglePaneZoomState,
        ActionView::ShowTabNavigator,
    ]
}

fn make_core_window_actions() -> (r: Vec<KeyAssignment>)
    ensures
        action_views(r@) == core_window_actions(),
{
    let mut list: Vec<KeyAssignment> = Vec::new();
    assert(action_views(list@) =~= Seq::empty());
    add_action(&mut list, KeyAssignment::ToggleFullScreen);
    add_action(&mut list, KeyAssignment::CenterWindow);
    add_action(&mut list, KeyAssignment::MaximizeWindow);
    add_action(&mut list, KeyAssignment::Hide);
    add_action(&mut list, KeyAssignment::ToggleAlwaysOnTop);
    add_action(&mut list, KeyAssignment::ToggleAlwaysOnBottom);
    add_action(&mut list, KeyAssignment::ActivateWindowRelative(-1));
    add_action(&mut list, KeyAssignment::ActivateWindowRelative(1));
    add_action(&mut list, KeyAssignment::ActivateTabRelative(-1));
    add_action(&mut list, KeyAssignment::ActivateTabRelative(1));
    add_action(&mut list, KeyAssignment::ActivateLastTab);
    add_action(&mut list, KeyAssignment::MoveTabRelative(-1));
    add_action(&mut list, KeyAssignment::MoveTabRelative(1));
    add_action(&mut list, KeyAssignment::MoveTabToNewWindow);
    add_action(&mut list, KeyAssignment::TogglePaneZoomState);
    add_action(&mut list, KeyAssignment::ShowTabNavigator);
    list
}

/// The palette actions of the Help menu.
pub open spec fn core_help_actions() -> Seq<ActionView> {
    seq![
        ActionView::ShowDebugOverlay,
        ActionView::OpenUri("https://github.com/tw93/Kaku"@),
        ActionView::OpenUri("https://github.com/tw93/Kaku/issues/"@),
    ]
}

fn make_core_help_actions() -> (r: Vec<KeyAssignment>)
    ensures
        action_views(r@) == core_help_actions(),
{
    let mut list: Vec<KeyAssignment> = Vec::new();
    assert(action_views(list@) =~= Seq::empty());
    add_action(&mut list, KeyAssignment::ShowDebugOverlay);
    add_action(&mut list, KeyAssignment::OpenUri("https://github.com/tw93/Kaku".to_owned()));
    add_action(
        &mut list,
        KeyAssignment::OpenUri("https://github.com/tw93/Kaku/issues/".to_owned()),
    );
    list
}

/// The actions that the palette always offers.
pub open spec fn core_actions() -> Seq<ActionView> {
    core_shell_actions() + core_edit_actions() + core_view_actions() + core_window_actions()
        + core_help_actions()
}

/// The actions that the palette always offers: not the dynamic domain,
/// workspace and launch menu commands.
pub fn palette_core_actions() -> (r: Vec<KeyAssignment>)
    ensures
        action_views(r@) == core_actions(),
{
    let mut list = make_core_shell_actions();
    append_actions(&mut list, make_core_edit_actions());
    append_actions(&mut list, make_core_view_actions());
    append_actions(&mut list, make_core_window_actions());
    append_actions(&mut list, make_core_help_actions());
    list
}

/// Bound actions that would only clutter the palette.
pub open spec fn noise_action(action: ActionView) -> bool {
    matches!(
        action,
        ActionView::SendString(_) | ActionView::SendKey(_) | ActionView::Nop
            | ActionView::Multiple(_) | ActionView::ActivateTab(_)
    )
}

fn is_palette_noise_action(action: &KeyAssignment) -> (r: bool)
    ensures
        r == noise_action(action@),
{
    matches!(
        action,
        KeyAssignment::SendString(_) | KeyAssignment::SendKey(_) | KeyAssignment::Nop
            | KeyAssignment::Multiple(_) | KeyAssignment::ActivateTab(_)
    )
}

/// The first command that has `action`, or the length of the list.
pub open spec fn action_index(list: Seq<ExpandedView>, action: ActionView) -> int
    decreases list.len(),
{
    if list.len() == 0 {
        0
    } else if list[0].action == action {
        0
    } else {
        1 + action_index(list.drop_first(), action)
    }
}

pub(crate) proof fn lemma_action_index(list: Seq<ExpandedView>, action: ActionView)
    ensures
        0 <= action_index(list, action) <= list.len(),
        action_index(list, action) < list.len() ==> list[action_index(list, action)].action
            == action,
        forall|k: int|
            0 <= k < action_index(list, action) ==> (#[trigger] list[k]).action != action,
    decreases list.len(),
{
    if list.len() > 0 && list[0].action != action {
        let rest = list.drop_first();
        lemma_action_index(rest, action);
        assert forall|k: int| 0 <= k < action_index(list, action) implies (
        #[trigger] list[k]).action != action by {
            if k > 0 {
                assert(rest[k - 1] == list[k]);
            }
        }
    }
}

pub(crate) fn find_action(list: &Vec<ExpandedCommand>, action: &KeyAssignment) -> (r: usize)
    ensures
        r == action_index(expanded_views(list@), action@),
        r <= list.len(),
{
    let mut i: usize = 0;
    let ghost all = expanded_views(list@);
    assert(all.skip(0) =~= all);
    while i < list.len()
        invariant
            i <= list.len(),
            all == expanded_views(list@),
            action_index(all, action@) == i + action_index(all.skip(i as int), action@),
        decreases list.len() - i,
    {
        assert(all.skip(i as int)[0] == list@[i as int]@);
        if list[i].action.same_as(action) {
            return i;
        }
        assert(all.skip(i as int).drop_first() =~= all.skip(i + 1));
        i += 1;
    }
    i
}

/// The command that a binding adds where no command has its action yet.
pub open spec fn bound_command(b: BindingView, platform: Platform) -> Option<ExpandedView> {
    match command_of(b.action, platform) {
        Some(def) => Some(
            ExpandedView {
                brief: def.brief,
                doc: def.doc,
                action: b.action,
                keys: seq![(b.mods, b.key)],
                menubar: def.menubar,
                icon: def.icon,
            },
        ),
        None => None,
    }
}

pub(crate) fn make_bound_command(b: &KeyBinding, platform: Platform) -> (r: Option<ExpandedCommand>)
    ensures
        crate::commands::opt_expanded(r) == bound_command(b@, platform),
{
    match derive_command_from_key_assignment(&b.action, platform) {
        Some(def) => {
            let mut keys: Vec<(Modifiers, KeyCode)> = Vec::new();
            keys.push((b.mods, b.key));
            assert(keys@ =~= seq![(b.mods, b.key)]);
            Some(
                ExpandedCommand {
                    brief: def.brief,
                    doc: def.doc,
                    action: b.action.duplicate(),
                    keys,
                    menubar: def.menubar,
                    icon: def.icon,
                },
            )
        },
        None => None,
    }
}

/// The list after one more binding: the command that has its action gains the
/// key, or a new command is added.
pub open spec fn absorb(list: Seq<ExpandedView>, b: BindingView, platform: Platform) -> Seq<
    ExpandedView,
> {
    let at = action_index(list, b.action);
    if noise_action(b.action) {
        list
    } else if at < list.len() {
        if list[at].keys.contains((b.mods, b.key)) {
            list
        } else {
            list.update(
                at,
                ExpandedView { keys: list[at].keys.push((b.mods, b.key)), ..list[at] },
            )
        }
    } else {
        match bound_command(b, platform) {
            Some(command) => list.push(command),
            None => list,
        }
    }
}

/// The list after all of the bindings.
pub open spec fn absorbed(
    list: Seq<ExpandedView>,
    bindings: Seq<BindingView>,
    platform: Platform,
) -> Seq<ExpandedView>
    decreases bindings.len(),
{
    if bindings.len() == 0 {
        list
    } else {
        absorb(absorbed(list, bindings.drop_last(), platform), bindings.last(), platform)
    }
}

fn has_key(keys: &Vec<(Modifiers, KeyCode)>, mods: Modifiers, key: KeyCode) -> (r: bool)
    ensures
        r == keys@.contains((mods, key)),
{
    let mut i: usize = 0;
    while i < keys.len()
        invariant
            i <= keys.len(),
            forall|k: int| 0 <= k < i ==> keys@[k] != (mods, key),
        decreases keys.len() - i,
    {
        if keys[i].0 == mods && keys[i].1 == key {
            assert(keys@[i as int] == (mods, key));
            return true;
        }
        i += 1;
    }
    false
}

/// Adds the keys that are bound beyond the commands of `result`.
fn absorb_bindings(
    result: Vec<ExpandedCommand>,
    bindings: &Vec<KeyBinding>,
    platform: Platform,
) -> (r: Vec<ExpandedCommand>)
    ensures
        expanded_views(r@) == absorbed(expanded_views(result@), bound(bindings@), platform),
{
    let mut list = result;
    let ghost start = expanded_views(list@);
    let mut i: usize = 0;
    while i < bindings.len()
        invariant
            i <= bindings.len(),
            expanded_views(list@) == absorbed(start, bound(bindings@).take(i as int), platform),
        decreases bindings.len() - i,
    {
        let b = &bindings[i];
        let ghost before = expanded_views(list@);
        proof {
            let now = bound(bindings@).take(i + 1);
            assert(now.drop_last() =~= bound(bindings@).take(i as int));
            assert(now.last() == b@);
            lemma_action_index(before, b@.action);
        }
        if !is_palette_noise_action(&b.action) {
            let at = find_action(&list, &b.action);
            if at < list.len() {
                assert(before[at as int] == list@[at as int]@);
                if !has_key(&list[at].keys, b.mods, b.key) {
                    let ghost target = list@[at as int]@;
                    let mut command = list[at].duplicate();
                    command.keys.push((b.mods, b.key));
                    list.set(at, command);
                    assert(expanded_views(list@) =~= before.update(
                        at as int,
                        ExpandedView { keys: target.keys.push((b.mods, b.key)), ..target },
                    ));
                }
            } else {
                if let Some(command) = make_bound_command(b, platform) {
                    let ghost view = command@;
                    list.push(command);
                    assert(expanded_views(list@) =~= before.push(view));
                }
            }
        }
        i += 1;
    }
    assert(bound(bindings@).take(i as int) =~= bound(bindings@));
    list
}

// ---------------------------------------------------------------------------
// Under which keys
// ---------------------------------------------------------------------------

/// The keys bound to `action`, each once, where it first occurs.
pub open spec fn distinct_keys(bindings: Seq<BindingView>, action: ActionView) -> Seq<
    (u16, KeyCode),
>
    decreases bindings.len(),
{
    if bindings.len() == 0 {
        seq![]
    } else {
        let before = distinct_keys(bindings.drop_last(), action);
        let b = bindings.last();
        if b.action != action || before.contains((b.mods, b.key)) {
            before
        } else {
            before.push((b.mods, b.key))
        }
    }
}

/// How much a chord is preferred: by its modifiers, with SUPER ahead of all.
pub open spec fn mods_score(mods: u16) -> int {
    mods + if has_mods(mods, SUPER) {
        1000int
    } else {
        0
    }
}

fn score_mods(mods: Modifiers) -> (r: u64)
    ensures
        r == mods_score(mods),
        r <= 66_535,
{
    let score: u64 = mods as u64;
    if contains_mods(mods, SUPER) {
        score + 1000
    } else {
        score
    }
}

/// What chords are sorted by: the preferred modifiers first, then by key.
pub open spec fn chord_rank(k: (u16, KeyCode)) -> SortKeyView {
    SortKeyView { major: (66_535 - mods_score(k.0)) as u64, minor: k.1.order, text: seq![] }
}

pub open spec fn chord_ranks(keys: Seq<(u16, KeyCode)>) -> Seq<SortKeyView> {
    keys.map_values(|k: (u16, KeyCode)| chord_rank(k))
}

/// The chords, the preferred ones first.
pub open spec fn by_preference(keys: Seq<(u16, KeyCode)>) -> Seq<(u16, KeyCode)> {
    reordered(keys, stable_order(chord_ranks(keys)))
}

/// Sorts chords so that the preferred ones come first.
pub(crate) fn sort_chords(keys: &Vec<(Modifiers, KeyCode)>) -> (r: Vec<(Modifiers, KeyCode)>)
    ensures
        r@ == by_preference(keys@),
{
    let mut ranks: Vec<SortKey> = Vec::new();
    let mut i: usize = 0;
    while i < keys.len()
        invariant
            i <= keys.len(),
            ranks.len() == i,
            forall|k: int| 0 <= k < i ==> #[trigger] ranks@[k]@ == chord_rank(keys@[k]),
        decreases keys.len() - i,
    {
        let score = score_mods(keys[i].0);
        let rank = SortKey { major: 66_535 - score, minor: keys[i].1.order, text: String::new() };
        assert(rank@.text =~= seq![]);
        ranks.push(rank);
        i += 1;
    }
    assert(key_views(ranks@) =~= chord_ranks(keys@));
    let order = sort_order(&ranks);
    let mut out: Vec<(Modifiers, KeyCode)> = Vec::new();
    let mut j: usize = 0;
    while j < order.len()
        invariant
            j <= order.len(),
            is_stable_order(chord_ranks(keys@), index_views(order@)),
            out@ == reordered(keys@, index_views(order@)).take(j as int),
        decreases order.len() - j,
    {
        assert(index_views(order@)[j as int] == order@[j as int]);
        let at = order[j];
        out.push((keys[at].0, keys[at].1));
        j += 1;
        assert(out@ =~= reordered(keys@, index_views(order@)).take(j as int));
    }
    assert(out@ =~= by_preference(keys@));
    out
}

/// The keys in effect for an action: those that the user wrote, then those
/// that hold everywhere, each once, the preferred ones first.
pub open spec fn effective_keys(action: ActionView, config: Config, map: InputMap) -> Seq<
    (u16, KeyCode),
> {
    by_preference(distinct_keys(bound(config.keys@) + bound(map.app_wide@), action))
}

fn add_distinct(
    merged: &mut Vec<(Modifiers, KeyCode)>,
    bindings: &Vec<KeyBinding>,
    action: &KeyAssignment,
    before: Ghost<Seq<BindingView>>,
)
    requires
        old(merged)@ == distinct_keys(before@, action@),
    ensures
        final(merged)@ == distinct_keys(before@ + bound(bindings@), action@),
{
    let mut i: usize = 0;
    assert(before@ + bound(bindings@).take(0) =~= before@);
    while i < bindings.len()
        invariant
            i <= bindings.len(),
            merged@ == distinct_keys(before@ + bound(bindings@).take(i as int), action@),
        decreases bindings.len() - i,
    {
        let b = &bindings[i];
        proof {
            let now = before@ + bound(bindings@).take(i + 1);
            assert(now.drop_last() =~= before@ + bound(bindings@).take(i as int));
            assert(now.last() == b@);
        }
        if b.action.same_as(action) && !has_key(&*merged, b.mods, b.key) {
            merged.push((b.mods, b.key));
        }
        i += 1;
    }
    assert(bound(bindings@).take(i as int) =~= bound(bindings@));
}

/// Keeps shortcut display aligned with the effective keymap, including user
/// overrides.
fn merged_keys(action: &KeyAssignment, config: &Config, map: &InputMap) -> (r: Vec<
    (Modifiers, KeyCode),
>)
    ensures
        r@ == effective_keys(action@, *config, *map),
{
    let mut merged: Vec<(Modifiers, KeyCode)> = Vec::new();
    assert(merged@ =~= distinct_keys(Seq::empty(), action@));
    add_distinct(&mut merged, &config.keys, action, Ghost(Seq::empty()));
    assert(Seq::<BindingView>::empty() + bound(config.keys@) =~= bound(config.keys@));
    add_distinct(&mut merged, &map.app_wide, action, Ghost(bound(config.keys@)));
    sort_chords(&merged)
}

/// The commands under the keys in effect.
pub open spec fn rekeyed(list: Seq<ExpandedView>, config: Config, map: InputMap) -> Seq<
    ExpandedView,
> {
    list.map_values(
        |c: ExpandedView| ExpandedView { keys: effective_keys(c.action, config, map), ..c },
    )
}

fn rekey_commands(list: Vec<ExpandedCommand>, config: &Config, map: &InputMap) -> (r: Vec<
    ExpandedCommand,
>)
    ensures
        expanded_views(r@) == rekeyed(expanded_views(list@), *config, *map),
{
    let mut out: Vec<ExpandedCommand> = Vec::new();
    let mut i: usize = 0;
    let ghost target = rekeyed(expanded_views(list@), *config, *map);
    while i < list.len()
        invariant
            i <= list.len(),
            target == rekeyed(expanded_views(list@), *config, *map),
            out.len() == i,
            forall|k: int| 0 <= k < i ==> #[trigger] out@[k]@ == target[k],
        decreases list.len() - i,
    {
        let mut command = list[i].duplicate();
        command.keys = merged_keys(&list[i].action, config, map);
        out.push(command);
        i += 1;
    }
    assert(expanded_views(out@) =~= target);
    out
}

// ---------------------------------------------------------------------------
// Duplicates
// ---------------------------------------------------------------------------

/// The action that stands for all that the palette treats as the same item.
pub open spec fn palette_identity(action: ActionView) -> ActionView {
    match action {
        // "New tab in current/default domain" is one palette item.
        ActionView::SpawnTab(DomainView::CurrentPaneDomain)
        | ActionView::SpawnTab(DomainView::DefaultDomain) => ActionView::SpawnTab(
            DomainView::CurrentPaneDomain,
        ),
        // The confirm/no-confirm variants are the same command in the palette.
        ActionView::CloseCurrentTab { confirm: _ } => ActionView::CloseCurrentTab {
            confirm: true,
        },
        ActionView::CloseCurrentPane { confirm: _ } => ActionView::CloseCurrentPane {
            confirm: true,
        },
        _ => action,
    }
}

fn action_dedupe_identity(action: &KeyAssignment) -> (r: KeyAssignment)
    ensures
        r@ == palette_identity(action@),
{
    match action {
        KeyAssignment::SpawnTab(SpawnTabDomain::CurrentPaneDomain)
        | KeyAssignment::SpawnTab(SpawnTabDomain::DefaultDomain) => KeyAssignment::SpawnTab(
            SpawnTabDomain::CurrentPaneDomain,
        ),
        KeyAssignment::CloseCurrentTab { confirm: _ } => KeyAssignment::CloseCurrentTab {
            confirm: true,
        },
        KeyAssignment::CloseCurrentPane { confirm: _ } => KeyAssignment::CloseCurrentPane {
            confirm: true,
        },
        _ => action.duplicate(),
    }
}

/// What makes a palette item: its label, but for case and surrounding space,
/// and its kind of action.
#[verifier::opaque]
pub open spec fn item_of(c: ExpandedView) -> (Seq<char>, ActionView) {
    (lowered(trimmed(c.brief)), palette_identity(c.action))
}

/// Whether two commands are one palette item.
pub open spec fn same_item(a: ExpandedView, b: ExpandedView) -> bool {
    item_of(a) == item_of(b)
}

fn is_same_item(a: &ExpandedCommand, b: &ExpandedCommand) -> (r: bool)
    ensures
        r == same_item(a@, b@),
{
    reveal(item_of);
    let x = to_ascii_lowercase(trim(a.brief.as_str()).as_str());
    let y = to_ascii_lowercase(trim(b.brief.as_str()).as_str());
    same(x.as_str(), y.as_str()) && action_dedupe_identity(&a.action).same_as(
        &action_dedupe_identity(&b.action),
    )
}

/// Whether the user bound `action` themselves.
pub open spec fn explicitly_bound(action: ActionView, config: Config) -> bool {
    exists|i: int| 0 <= i < config.keys@.len() && (#[trigger] config.keys@[i]).action@ == action
}

fn is_explicitly_bound(action: &KeyAssignment, config: &Config) -> (r: bool)
    ensures
        r == explicitly_bound(action@, *config),
{
    let mut i: usize = 0;
    while i < config.keys.len()
        invariant
            i <= config.keys.len(),
            forall|k: int| 0 <= k < i ==> (#[trigger] config.keys@[k]).action@ != action@,
        decreases config.keys.len() - i,
    {
        if config.keys[i].action.same_as(action) {
            assert(config.keys@[i as int].action@ == action@);
            return true;
        }
        i += 1;
    }
    false
}

/// How well a command is bound: explicitly, by default, or not at all.
pub open spec fn binding_level(c: ExpandedView, config: Config) -> int {
    if explicitly_bound(c.action, config) {
        2
    } else if c.keys.len() > 0 {
        1
    } else {
        0
    }
}

/// Whether `a` takes the place of its duplicate `b`.
pub open spec fn outranks(a: ExpandedView, b: ExpandedView, config: Config) -> bool {
    binding_level(a, config) > binding_level(b, config) || (binding_level(a, config)
        == binding_level(b, config) && a.keys.len() > b.keys.len())
}

fn rank_command(cmd: &ExpandedCommand, config: &Config) -> (r: (u8, usize))
    ensures
        r.0 == binding_level(cmd@, *config),
        r.1 == cmd@.keys.len(),
{
    let level: u8 = if is_explicitly_bound(&cmd.action, config) {
        2
    } else if cmd.keys.len() > 0 {
        1
    } else {
        0
    };
    (level, cmd.keys.len())
}

/// The first item that `c` duplicates, or the length of the list.
pub open spec fn item_index(list: Seq<ExpandedView>, c: ExpandedView) -> int
    decreases list.len(),
{
    if list.len() == 0 {
        0
    } else if same_item(list[0], c) {
        0
    } else {
        1 + item_index(list.drop_first(), c)
    }
}

pub(crate) proof fn lemma_item_index(list: Seq<ExpandedView>, c: ExpandedView)
    ensures
        0 <= item_index(list, c) <= list.len(),
        item_index(list, c) < list.len() ==> same_item(list[item_index(list, c)], c),
        item_index(list, c) == list.len() ==> forall|k: int|
            0 <= k < list.len() ==> !same_item(#[trigger] list[k], c),
    decreases list.len(),
{
    if list.len() > 0 && !same_item(list[0], c) {
        let rest = list.drop_first();
        lemma_item_index(rest, c);
        if item_index(list, c) == list.len() {
            assert forall|k: int| 0 <= k < list.len() implies !same_item(#[trigger] list[k], c) by {
                if k > 0 {
                    assert(rest[k - 1] == list[k]);
                }
            }
        }
    }
}

/// The palette items among the commands: of each set of duplicates the best
/// bound one, in the place of the first.
pub open spec fn deduped(list: Seq<ExpandedView>, config: Config) -> Seq<ExpandedView>
    decreases list.len(),
{
    if list.len() == 0 {
        seq![]
    } else {
        let before = deduped(list.drop_last(), config);
        let c = list.last();
        let at = item_index(before, c);
        if at >= before.len() {
            before.push(c)
        } else if outranks(c, before[at], config) {
            before.update(at, c)
        } else {
            before
        }
    }
}

fn dedupe_commands(list: &Vec<ExpandedCommand>, config: &Config) -> (r: Vec<ExpandedCommand>)
    ensures
        expanded_views(r@) == deduped(expanded_views(list@), *config),
{
    let mut out: Vec<ExpandedCommand> = Vec::new();
    let mut i: usize = 0;
    assert(expanded_views(out@) =~= seq![]);
    while i < list.len()
        invariant
            i <= list.len(),
            expanded_views(out@) == deduped(expanded_views(list@).take(i as int), *config),
        decreases list.len() - i,
    {
        let ghost before = expanded_views(out@);
        proof {
            let now = expanded_views(list@).take(i + 1);
            assert(now.drop_last() =~= expanded_views(list@).take(i as int));
            assert(now.last() == list@[i as int]@);
            lemma_item_index(before, list@[i as int]@);
            assert(before.skip(0) =~= before);
        }
        let cmd = &list[i];
        let mut at: usize = 0;
        while at < out.len() && !is_same_item(&out[at], cmd)
            invariant
                at <= out.len(),
                before == expanded_views(out@),
                item_index(before, cmd@) == at + item_index(before.skip(at as int), cmd@),
            decreases out.len() - at,
        {
            assert(before.skip(at as int)[0] == out@[at as int]@);
            assert(before.skip(at as int).drop_first() =~= before.skip(at + 1));
            at += 1;
        }
        if at < out.len() {
            assert(before.skip(at as int)[0] == out@[at as int]@);
            let new_rank = rank_command(cmd, config);
            let old_rank = rank_command(&out[at], config);
            assert(before[at as int] == out@[at as int]@);
            if new_rank.0 > old_rank.0 || (new_rank.0 == old_rank.0 && new_rank.1 > old_rank.1) {
                out.set(at, cmd.duplicate());
                assert(expanded_views(out@) =~= before.update(at as int, cmd@));
            }
        } else {
            out.push(cmd.duplicate());
            assert(expanded_views(out@) =~= before.push(cmd@));
        }
        i += 1;
    }
    assert(expanded_views(list@).take(i as int) =~= expanded_views(list@));
    out
}

// ---------------------------------------------------------------------------
// In which order
// ---------------------------------------------------------------------------

pub open spec fn discovery_action(action: ActionView) -> bool {
    matches!(
        action,
        ActionView::SplitHorizontal(_) | ActionView::SplitVertical(_) | ActionView::Search(_)
            | ActionView::QuickSelect | ActionView::ShowLauncher | ActionView::ShowLauncherArgs(_)
            | ActionView::ShowTabNavigator | ActionView::RestorePreviousWindow
            | ActionView::ActivateTabRelative(_) | ActionView::ActivateLastTab
            | ActionView::MoveTabRelative(_) | ActionView::TogglePaneZoomState
            | ActionView::AdjustPaneSize(_, _) | ActionView::ActivatePaneDirection(_)
    ) || (action matches ActionView::EmitEvent(name) && (name == "kaku-ai-chat"@ || name
        == "kaku-launch-lazygit"@ || name == "kaku-launch-yazi"@ || name == "run-kaku-ai-config"@))
}

fn is_high_value_discovery_action(action: &KeyAssignment) -> (r: bool)
    ensures
        r == discovery_action(action@),
{
    if let KeyAssignment::EmitEvent(name) = action {
        return same(name.as_str(), "kaku-ai-chat") || same(name.as_str(), "kaku-launch-lazygit")
            || same(name.as_str(), "kaku-launch-yazi") || same(
            name.as_str(),
            "run-kaku-ai-config",
        );
    }
    matches!(
        action,
        KeyAssignment::SplitHorizontal(_) | KeyAssignment::SplitVertical(_)
            | KeyAssignment::Search(_) | KeyAssignment::QuickSelect | KeyAssignment::ShowLauncher
            | KeyAssignment::ShowLauncherArgs(_) | KeyAssignment::ShowTabNavigator
            | KeyAssignment::RestorePreviousWindow | KeyAssignment::ActivateTabRelative(_)
            | KeyAssignment::ActivateLastTab | KeyAssignment::MoveTabRelative(_)
            | KeyAssignment::TogglePaneZoomState | KeyAssignment::AdjustPaneSize(_, _)
            | KeyAssignment::ActivatePaneDirection(_)
    )
}

pub open spec fn familiar_action(action: ActionView) -> bool {
    matches!(
        action,
        ActionView::SpawnWindow | ActionView::SpawnTab(_) | ActionView::CopyTo(_)
            | ActionView::PasteFrom(_) | ActionView::CloseCurrentTab { .. }
            | ActionView::CloseCurrentPane { .. } | ActionView::Hide | ActionView::ToggleFullScreen
            | ActionView::IncreaseFontSize | ActionView::DecreaseFontSize
            | ActionView::ResetFontSize | ActionView::ResetFontAndWindowSize
    )
}

fn is_familiar_action(action: &KeyAssignment) -> (r: bool)
    ensures
        r == familiar_action(action@),
{
    matches!(
        action,
        KeyAssignment::SpawnWindow | KeyAssignment::SpawnTab(_) | KeyAssignment::CopyTo(_)
            | KeyAssignment::PasteFrom(_) | KeyAssignment::CloseCurrentTab { .. }
            | KeyAssignment::CloseCurrentPane { .. } | KeyAssignment::Hide
            | KeyAssignment::ToggleFullScreen | KeyAssignment::IncreaseFontSize
            | KeyAssignment::DecreaseFontSize | KeyAssignment::ResetFontSize
            | KeyAssignment::ResetFontAndWindowSize
    )
}

pub open spec fn rare_action(action: ActionView) -> bool {
    matches!(
        action,
        ActionView::ShowDebugOverlay | ActionView::OpenUri(_) | ActionView::ScrollToTop
            | ActionView::ScrollToBottom | ActionView::ToggleAlwaysOnBottom
    )
}

fn is_rare_action(action: &KeyAssignment) -> (r: bool)
    ensures
        r == rare_action(action@),
{
    matches!(
        action,
        KeyAssignment::ShowDebugOverlay | KeyAssignment::OpenUri(_) | KeyAssignment::ScrollToTop
            | KeyAssignment::ScrollToBottom | KeyAssignment::ToggleAlwaysOnBottom
    )
}

/// Familiar commands first, then discovery, then others, rare ones last.
pub open spec fn bucket_of(c: ExpandedView) -> int {
    if rare_action(c.action) {
        4
    } else if familiar_action(c.action) {
        0
    } else if discovery_action(c.action) {
        1
    } else if c.keys.len() > 0 {
        2
    } else {
        3
    }
}

fn browse_bucket(cmd: &ExpandedCommand) -> (r: u8)
    ensures
        r == bucket_of(cmd@),
{
    if is_rare_action(&cmd.action) {
        4
    } else if is_familiar_action(&cmd.action) {
        0
    } else if is_high_value_discovery_action(&cmd.action) {
        1
    } else if cmd.keys.len() > 0 {
        2
    } else {
        3
    }
}

/// Sub-order by menu category so semantically related commands cluster.
pub open spec fn group_of(c: ExpandedView) -> int {
    if c.menubar.len() == 0 {
        5
    } else if c.menubar[0] == "Shell"@ {
        0
    } else if c.menubar[0] == "Edit"@ {
        1
    } else if c.menubar[0] == "View"@ {
        2
    } else if c.menubar[0] == "Window"@ {
        3
    } else if c.menubar[0] == "Help"@ {
        4
    } else {
        5
    }
}

fn semantic_group(cmd: &ExpandedCommand) -> (r: u8)
    ensures
        r == group_of(cmd@),
{
    if cmd.menubar.len() == 0 {
        return 5;
    }
    assert(cmd@.menubar[0] == cmd.menubar@[0]@);
    let title = cmd.menubar[0].as_str();
    if same(title, "Shell") {
        0
    } else if same(title, "Edit") {
        1
    } else if same(title, "View") {
        2
    } else if same(title, "Window") {
        3
    } else if same(title, "Help") {
        4
    } else {
        5
    }
}

pub open spec fn browse_key(c: ExpandedView) -> SortKeyView {
    SortKeyView { major: bucket_of(c) as u64, minor: group_of(c) as u64, text: c.brief }
}

pub open spec fn browse_keys(list: Seq<ExpandedView>) -> Seq<SortKeyView> {
    list.map_values(|c: ExpandedView| browse_key(c))
}

/// The items in browsing order.
pub open spec fn browse_sorted(list: Seq<ExpandedView>) -> Seq<ExpandedView> {
    reordered(list, stable_order(browse_keys(list)))
}

/// The commands of `list` in the given order.
pub(crate) fn pick_commands(list: &Vec<ExpandedCommand>, order: &Vec<usize>) -> (r: Vec<
    ExpandedCommand,
>)
    requires
        forall|k: int| 0 <= k < order.len() ==> #[trigger] order@[k] < list.len(),
    ensures
        expanded_views(r@) == reordered(expanded_views(list@), index_views(order@)),
{
    let mut out: Vec<ExpandedCommand> = Vec::new();
    let mut j: usize = 0;
    while j < order.len()
        invariant
            j <= order.len(),
            out.len() == j,
            forall|k: int| 0 <= k < order.len() ==> #[trigger] order@[k] < list.len(),
            forall|k: int| 0 <= k < j ==> #[trigger] out@[k]@ == list@[order@[k] as int]@,
        decreases order.len() - j,
    {
        let at = order[j];
        out.push(list[at].duplicate());
        j += 1;
    }
    assert(expanded_views(out@) =~= reordered(expanded_views(list@), index_views(order@)));
    out
}

fn browse_sort(list: &Vec<ExpandedCommand>) -> (r: Vec<ExpandedCommand>)
    ensures
        expanded_views(r@) == browse_sorted(expanded_views(list@)),
{
    let mut keys: Vec<SortKey> = Vec::new();
    let mut i: usize = 0;
    while i < list.len()
        invariant
            i <= list.len(),
            keys.len() == i,
            forall|k: int| 0 <= k < i ==> #[trigger] keys@[k]@ == browse_key(list@[k]@),
        decreases list.len() - i,
    {
        keys.push(
            SortKey {
                major: browse_bucket(&list[i]) as u64,
                minor: semantic_group(&list[i]) as u64,
                text: list[i].brief.clone(),
            },
        );
        i += 1;
    }
    assert(key_views(keys@) =~= browse_keys(expanded_views(list@)));
    let order = sort_order(&keys);
    assert forall|k: int| 0 <= k < order.len() implies #[trigger] order@[k] < list.len() by {
        assert(index_views(order@)[k] == order@[k]);
    }
    pick_commands(list, &order)
}

/// The palette for a configuration and the keys in effect.
pub open spec fn palette_of(config: Config, map: InputMap) -> Seq<ExpandedView> {
    let offered = absorbed(
        expansions(core_actions(), config),
        bound(map.default@),
        config.platform,
    );
    browse_sorted(deduped(rekeyed(offered, config, map), config))
}

impl CommandDef {
    /// Returns only essential commands for Command Palette (fast, lightweight)
    pub fn actions_for_palette_only(config: &Config, map: &InputMap) -> (r: Vec<ExpandedCommand>)
        requires
            config.wf(),
        ensures
            expanded_views(r@) == palette_of(*config, *map),
    {
        let core = expand_all(palette_core_actions(), config);
        let offered = absorb_bindings(core, &map.default, config.platform);
        let keyed = rekey_commands(offered, config, map);
        let items = dedupe_commands(&keyed, config);
        browse_sort(&items)
    }
}

// ---------------------------------------------------------------------------
// Laws
// ---------------------------------------------------------------------------

/// Whether the palette may show `c`: its action has a command and is no noise.
pub open spec fn presentable(c: ExpandedView, platform: Platform) -> bool {
    command_of(c.action, platform) is Some && !noise_action(c.action)
}

pub open spec fn all_presentable(list: Seq<ExpandedView>, platform: Platform) -> bool {
    forall|i: int| 0 <= i < list.len() ==> presentable(#[trigger] list[i], platform)
}

pub open spec fn no_noise(actions: Seq<ActionView>) -> bool {
    forall|i: int| 0 <= i < actions.len() ==> !noise_action(#[trigger] actions[i])
}

proof fn lemma_core_without_noise()
    ensures
        no_noise(core_actions()),
{
    assert(no_noise(core_shell_actions()));
    assert(no_noise(core_edit_actions()));
    assert(no_noise(core_view_actions()));
    assert(no_noise(core_window_actions()));
    assert(no_noise(core_help_actions()));
}

proof fn lemma_expansions_presentable(actions: Seq<ActionView>, config: Config)
    requires
        no_noise(actions),
    ensures
        all_presentable(expansions(actions, config), config.platform),
    decreases actions.len(),
{
    if actions.len() > 0 {
        let rest = actions.drop_last();
        assert(no_noise(rest));
        lemma_expansions_presentable(rest, config);
        assert(!noise_action(actions[actions.len() - 1]));
    }
}

proof fn lemma_absorbed(list: Seq<ExpandedView>, bindings: Seq<BindingView>, platform: Platform)
    requires
        all_presentable(list, platform),
    ensures
        all_presentable(absorbed(list, bindings, platform), platform),
        absorbed(list, bindings, platform).len() >= list.len(),
        forall|i: int|
            0 <= i < list.len() ==> (#[trigger] absorbed(list, bindings, platform)[i]).action
                == list[i].action && absorbed(list, bindings, platform)[i].brief == list[i].brief,
    decreases bindings.len(),
{
    if bindings.len() > 0 {
        let rest = bindings.drop_last();
        lemma_absorbed(list, rest, platform);
        let before = absorbed(list, rest, platform);
        let b = bindings.last();
        lemma_action_index(before, b.action);
        let after = absorbed(list, bindings, platform);
        assert forall|i: int| 0 <= i < after.len() implies presentable(
            #[trigger] after[i],
            platform,
        ) by {
            if i < before.len() {
                assert(presentable(before[i], platform));
                assert(after[i].action == before[i].action);
            }
        }
        assert forall|i: int| 0 <= i < list.len() implies (#[trigger] after[i]).action
            == list[i].action && after[i].brief == list[i].brief by {
            assert(before[i].action == list[i].action);
        }
    }
}

pub open spec fn distinct_items(list: Seq<ExpandedView>) -> bool {
    forall|i: int, j: int|
        0 <= i < j < list.len() ==> !same_item(#[trigger] list[i], #[trigger] list[j])
}

/// Whether some entry of `list` is the item that `c` is.
pub open spec fn has_item(list: Seq<ExpandedView>, c: ExpandedView) -> bool {
    exists|i: int| 0 <= i < list.len() && same_item(#[trigger] list[i], c)
}

/// Whether every entry of `part` is one of `list`.
pub open spec fn drawn_from(part: Seq<ExpandedView>, list: Seq<ExpandedView>) -> bool {
    forall|i: int| 0 <= i < part.len() ==> list.contains(#[trigger] part[i])
}

/// Whether every entry of `list` has its item in `part`.
pub open spec fn represents(part: Seq<ExpandedView>, list: Seq<ExpandedView>) -> bool {
    forall|k: int| 0 <= k < list.len() ==> has_item(part, #[trigger] list[k])
}

proof fn lemma_dedupe_step(before: Seq<ExpandedView>, c: ExpandedView, after: Seq<ExpandedView>)
    requires
        distinct_items(before),
        ({
            let at = item_index(before, c);
            ||| at >= before.len() && after == before.push(c)
            ||| at < before.len() && (after == before || after == before.update(at, c))
        }),
    ensures
        distinct_items(after),
        has_item(after, c),
        forall|d: ExpandedView| has_item(before, d) ==> has_item(after, d),
{
    let at = item_index(before, c);
    lemma_item_index(before, c);
    if at < before.len() {
        assert(same_item(after[at], c));
    } else {
        assert(same_item(after[before.len() as int], c));
    }
    assert forall|d: ExpandedView| has_item(before, d) implies has_item(after, d) by {
        let i = choose|i: int| 0 <= i < before.len() && same_item(#[trigger] before[i], d);
        assert(same_item(after[i], d));
    }
    assert forall|i: int, j: int| 0 <= i < j < after.len() implies !same_item(
        #[trigger] after[i],
        #[trigger] after[j],
    ) by {
        if j < before.len() {
            assert(!same_item(before[i], before[j]));
        }
    }
}

pub(crate) proof fn lemma_deduped(list: Seq<ExpandedView>, config: Config)
    ensures
        distinct_items(deduped(list, config)),
        drawn_from(deduped(list, config), list),
        represents(deduped(list, config), list),
    decreases list.len(),
{
    if list.len() > 0 {
        let rest = list.drop_last();
        lemma_deduped(rest, config);
        let before = deduped(rest, config);
        let c = list.last();
        let after = deduped(list, config);
        lemma_item_index(before, c);
        lemma_dedupe_step(before, c, after);
        assert(list[list.len() - 1] == c);
        assert forall|i: int| 0 <= i < after.len() implies list.contains(#[trigger] after[i]) by {
            if i < before.len() && after[i] == before[i] {
                assert(rest.contains(before[i]));
                let k = choose|k: int| 0 <= k < rest.len() && rest[k] == before[i];
                assert(list[k] == after[i]);
            }
        }
        assert forall|k: int| 0 <= k < list.len() implies has_item(after, #[trigger] list[k]) by {
            if k < rest.len() {
                assert(has_item(before, rest[k]));
            }
        }
    }
}

/// The deduplicated items that the palette sorts.
pub open spec fn palette_items(config: Config, map: InputMap) -> Seq<ExpandedView> {
    deduped(
        rekeyed(
            absorbed(expansions(core_actions(), config), bound(map.default@), config.platform),
            config,
            map,
        ),
        config,
    )
}

/// The palette lists its items once each, sorted: familiar commands before
/// discovery, then the others, the rare ones last; within these by menu, then
/// by label.
pub proof fn palette_is_sorted(config: Config, map: InputMap)
    ensures
        palette_of(config, map).len() == palette_items(config, map).len(),
        forall|i: int, j: int|
            0 <= i < j < palette_of(config, map).len() ==> key_le(
                browse_key(#[trigger] palette_of(config, map)[i]),
                browse_key(#[trigger] palette_of(config, map)[j]),
            ),
        forall|c: ExpandedView|
            palette_of(config, map).contains(c) <==> #[trigger] palette_items(
                config,
                map,
            ).contains(c),
{
    let items = palette_items(config, map);
    let keys = browse_keys(items);
    stable_order_sorts(keys);
    let order = stable_order(keys);
    let shown = palette_of(config, map);
    assert(shown == reordered(items, order));
    assert forall|i: int, j: int| 0 <= i < j < shown.len() implies key_le(
        browse_key(#[trigger] shown[i]),
        browse_key(#[trigger] shown[j]),
    ) by {
        assert(precedes(keys, order[i], order[j]));
    }
    assert forall|c: ExpandedView| shown.contains(c) <==> #[trigger] items.contains(c) by {
        if shown.contains(c) {
            let i = choose|i: int| 0 <= i < shown.len() && shown[i] == c;
            assert(items[order[i]] == c);
        }
        if items.contains(c) {
            let v = choose|v: int| 0 <= v < items.len() && items[v] == c;
            assert(order.contains(v));
            let i = choose|i: int| 0 <= i < order.len() && order[i] == v;
            assert(shown[i] == c);
        }
    }
}

/// No two entries of the palette are the same item.
pub proof fn palette_items_are_distinct(config: Config, map: InputMap)
    ensures
        forall|i: int, j: int|
            0 <= i < palette_of(config, map).len() && 0 <= j < palette_of(config, map).len() && i
                != j ==> !same_item(
                #[trigger] palette_of(config, map)[i],
                #[trigger] palette_of(config, map)[j],
            ),
{
    let items = palette_items(config, map);
    let keys = browse_keys(items);
    stable_order_sorts(keys);
    let order = stable_order(keys);
    let shown = palette_of(config, map);
    lemma_deduped(
        rekeyed(
            absorbed(expansions(core_actions(), config), bound(map.default@), config.platform),
            config,
            map,
        ),
        config,
    );
    assert forall|i: int, j: int|
        0 <= i < shown.len() && 0 <= j < shown.len() && i != j implies !same_item(
        #[trigger] shown[i],
        #[trigger] shown[j],
    ) by {
        let a = order[i];
        let b = order[j];
        if i < j {
            assert(precedes(keys, order[i], order[j]));
        } else {
            assert(precedes(keys, order[j], order[i]));
        }
        if a < b {
            assert(!same_item(items[a], items[b]));
        } else {
            assert(!same_item(items[b], items[a]));
        }
    }
}

/// Every entry of the palette has a command, is no noise, and stands under the
/// keys in effect for its action. In particular the actions without a command,
/// such as the input broadcast toggles, never show.
pub proof fn palette_entries_are_described(config: Config, map: InputMap, i: int)
    requires
        0 <= i < palette_of(config, map).len(),
    ensures
        presentable(palette_of(config, map)[i], config.platform),
        palette_of(config, map)[i].keys == effective_keys(
            palette_of(config, map)[i].action,
            config,
            map,
        ),
{
    let core = expansions(core_actions(), config);
    let offered = absorbed(core, bound(map.default@), config.platform);
    let keyed = rekeyed(offered, config, map);
    lemma_core_without_noise();
    lemma_expansions_presentable(core_actions(), config);
    lemma_absorbed(core, bound(map.default@), config.platform);
    lemma_deduped(keyed, config);
    palette_is_sorted(config, map);
    let c = palette_of(config, map)[i];
    assert(palette_of(config, map).contains(c));
    assert(palette_items(config, map).contains(c));
    let m = choose|m: int|
        0 <= m < palette_items(config, map).len() && palette_items(config, map)[m] == c;
    assert(keyed.contains(deduped(keyed, config)[m]));
    let k = choose|k: int| 0 <= k < keyed.len() && keyed[k] == c;
    assert(presentable(offered[k], config.platform));
}

pub(crate) proof fn lemma_expansions_cover(actions: Seq<ActionView>, config: Config, k: int)
    requires
        0 <= k < actions.len(),
        command_of(actions[k], config.platform) is Some,
    ensures
        exists|i: int|
            0 <= i < expansions(actions, config).len() && #[trigger] expansions(actions, config)[i]
                == expansion(actions[k], config, true)->0,
    decreases actions.len(),
{
    let rest = actions.drop_last();
    if k < rest.len() {
        lemma_expansions_cover(rest, config, k);
        let i = choose|i: int|
            0 <= i < expansions(rest, config).len() && #[trigger] expansions(rest, config)[i]
                == expansion(rest[k], config, true)->0;
        assert(expansions(actions, config)[i] == expansions(rest, config)[i]);
    } else {
        let n = expansions(rest, config).len() as int;
        assert(expansions(actions, config)[n] == expansion(actions[k], config, true)->0);
    }
}

/// Every core action that has a command is in the palette, at least as the item
/// that it is a duplicate of.
pub proof fn palette_offers_core_actions(config: Config, map: InputMap, k: int)
    requires
        0 <= k < core_actions().len(),
        command_of(core_actions()[k], config.platform) is Some,
    ensures
        exists|i: int|
            0 <= i < palette_of(config, map).len() && same_item(
                #[trigger] palette_of(config, map)[i],
                expansion(core_actions()[k], config, true)->0,
            ),
{
    let actions = core_actions();
    let core = expansions(actions, config);
    let offered = absorbed(core, bound(map.default@), config.platform);
    let keyed = rekeyed(offered, config, map);
    let wanted = expansion(actions[k], config, true)->0;
    lemma_expansions_cover(actions, config, k);
    let m = choose|m: int| 0 <= m < core.len() && #[trigger] core[m] == wanted;
    lemma_core_without_noise();
    lemma_expansions_presentable(actions, config);
    lemma_absorbed(core, bound(map.default@), config.platform);
    assert(offered[m].action == core[m].action);
    assert(same_item(keyed[m], wanted)) by {
        reveal(item_of);
    }
    lemma_deduped(keyed, config);
    let items = palette_items(config, map);
    assert(has_item(items, keyed[m]));
    let j = choose|j: int| 0 <= j < items.len() && same_item(#[trigger] items[j], keyed[m]);
    palette_is_sorted(config, map);
    assert(items.contains(items[j]));
    let i = choose|i: int|
        0 <= i < palette_of(config, map).len() && palette_of(config, map)[i] == items[j];
    assert(same_item(palette_of(config, map)[i], wanted));
}

} // verus!
