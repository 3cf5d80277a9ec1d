//! The command palette and the menubar: what they offer, and in which order.
use crate::commands::{Config, ExpandedView, Platform, Translations, command_of, expansions};
use crate::key_assignment::{
    ActionView, ClipboardCopyDestination, ClipboardPasteSource, DomainView, SpawnCommandView,
    plain_command,
};
use crate::keys::{ALT, CTRL, KeyCode, SHIFT, SUPER};
use crate::laws::holds;
use crate::laws::lemma_stands_between;
use crate::menubar::{
    ApplicationItemView, NamedDomain, all_commands, application_menu, bare_version, detach_command,
    detach_commands, domain_command, domain_commands, domain_ranks, launch_commands, launch_label,
    listed_commands, located, menu_group, menu_plan, menu_rank, sorted_domains, swept_bindings,
    swept_commands_are_new, swept_named, workspace_commands,
};
use crate::order::{key_le, precedes, stable_order, stable_order_sorts};
use crate::palette::{
    BindingView, InputMap, absorbed, action_index, binding_level, bound, browse_key, by_preference,
    chord_rank, chord_ranks, core_actions, deduped, distinct_keys, effective_keys, has_item,
    item_index, item_of, lemma_action_index, lemma_deduped, lemma_item_index, noise_action,
    palette_is_sorted, palette_items, palette_of, rekeyed, same_item,
};
use crate::text::{joined, lowered, text_le, trimmed};
use vstd::prelude::*;
use vstd::string::*;

verus! {

// ---------------------------------------------------------------------------
// Keys
// ---------------------------------------------------------------------------

/// Whether some binding binds the chord to the action.
pub open spec fn binds(list: Seq<BindingView>, action: ActionView, m: u16, k: KeyCode) -> bool {
    exists|i: int|
        0 <= i < list.len() && (#[trigger] list[i]).action == action && list[i].mods == m
            && list[i].key == k
}

proof fn lemma_distinct(list: Seq<BindingView>, action: ActionView, m: u16, k: KeyCode)
    ensures
        distinct_keys(list, action).contains((m, k)) <==> binds(list, action, m, k),
        distinct_keys(list, action).no_duplicates(),
    decreases list.len(),
{
    if list.len() > 0 {
        let rest = list.drop_last();
        lemma_distinct(rest, action, m, k);
        let before = distinct_keys(rest, action);
        let all = distinct_keys(list, action);
        let b = list.last();
        if before.contains((m, k)) {
            let i = choose|i: int| 0 <= i < before.len() && before[i] == (m, k);
            assert(all[i] == (m, k));
            let j = choose|j: int|
                0 <= j < rest.len() && (#[trigger] rest[j]).action == action && rest[j].mods == m
                    && rest[j].key == k;
            assert(list[j] == rest[j]);
        } else if b.action == action && b.mods == m && b.key == k {
            assert(all[before.len() as int] == (m, k));
            assert(list[list.len() - 1] == b);
        } else {
            if all.contains((m, k)) {
                let i = choose|i: int| 0 <= i < all.len() && all[i] == (m, k);
                assert(before[i] == (m, k));
            }
            assert forall|j: int|
                0 <= j < list.len() && (#[trigger] list[j]).action == action && list[j].mods == m
                    && list[j].key == k implies false by {
                if j < rest.len() {
                    assert(rest[j] == list[j]);
                }
            }
        }
    }
}

proof fn lemma_preference(keys: Seq<(u16, KeyCode)>)
    ensures
        by_preference(keys).len() == keys.len(),
        forall|c: (u16, KeyCode)| #[trigger]
            by_preference(keys).contains(c) <==> keys.contains(c),
        forall|i: int, j: int|
            0 <= i < j < keys.len() ==> key_le(
                chord_rank(#[trigger] by_preference(keys)[i]),
                chord_rank(#[trigger] by_preference(keys)[j]),
            ),
{
    let ranks = chord_ranks(keys);
    stable_order_sorts(ranks);
    let order = stable_order(ranks);
    let sorted = by_preference(keys);
    assert forall|c: (u16, KeyCode)| #[trigger]
        sorted.contains(c) <==> keys.contains(c) by {
        if sorted.contains(c) {
            let i = choose|i: int| 0 <= i < sorted.len() && sorted[i] == c;
            assert(keys[order[i]] == c);
        }
        if keys.contains(c) {
            let v = choose|v: int| 0 <= v < keys.len() && keys[v] == c;
            assert(order.contains(v));
            let i = choose|i: int| 0 <= i < order.len() && order[i] == v;
            assert(sorted[i] == c);
        }
    }
    assert forall|i: int, j: int| 0 <= i < j < keys.len() implies key_le(
        chord_rank(#[trigger] sorted[i]),
        chord_rank(#[trigger] sorted[j]),
    ) by {
        assert(precedes(ranks, order[i], order[j]));
    }
}

/// What a chord weighs among those of one command.
pub open spec fn weight(mods: u16) -> int {
    if mods & SUPER == SUPER {
        mods as int + 1000
    } else {
        mods as int
    }
}

/// An item shows exactly the chords that are bound to its action, by the user or
/// everywhere, the weightier modifiers first.
pub proof fn items_show_the_chords_in_effect(
    action: ActionView,
    config: Config,
    map: InputMap,
    m: u16,
    k: KeyCode,
    i: int,
    j: int,
)
    ensures
        effective_keys(action, config, map).contains((m, k)) <==> binds(
            bound(config.keys@),
            action,
            m,
            k,
        ) || binds(bound(map.app_wide@), action, m, k),
        0 <= i < j < effective_keys(action, config, map).len() ==> weight(
            effective_keys(action, config, map)[i].0,
        ) >= weight(effective_keys(action, config, map)[j].0),
{
    let a = bound(config.keys@);
    let b = bound(map.app_wide@);
    let all = a + b;
    let keys = distinct_keys(all, action);
    lemma_distinct(all, action, m, k);
    lemma_preference(keys);
    assert(by_preference(keys).contains((m, k)) <==> keys.contains((m, k)));
    if binds(all, action, m, k) {
        let n = choose|n: int|
            0 <= n < all.len() && (#[trigger] all[n]).action == action && all[n].mods == m
                && all[n].key == k;
        if n < a.len() {
            assert(a[n] == all[n]);
        } else {
            assert(b[n - a.len()] == all[n]);
        }
    }
    if binds(a, action, m, k) {
        let n = choose|n: int|
            0 <= n < a.len() && (#[trigger] a[n]).action == action && a[n].mods == m && a[n].key
                == k;
        assert(all[n] == a[n]);
    }
    if binds(b, action, m, k) {
        let n = choose|n: int|
            0 <= n < b.len() && (#[trigger] b[n]).action == action && b[n].mods == m && b[n].key
                == k;
        assert(all[a.len() + n] == b[n]);
    }
    if 0 <= i < j < keys.len() {
        assert(key_le(chord_rank(by_preference(keys)[i]), chord_rank(by_preference(keys)[j])));
    }
}

// ---------------------------------------------------------------------------
// The palette
// ---------------------------------------------------------------------------

proof fn lemma_absorbs(
    list: Seq<ExpandedView>,
    bindings: Seq<BindingView>,
    platform: Platform,
    i: int,
)
    requires
        0 <= i < bindings.len(),
        !noise_action(bindings[i].action),
        command_of(bindings[i].action, platform) is Some,
    ensures
        exists|k: int|
            0 <= k < absorbed(list, bindings, platform).len() && (#[trigger] absorbed(
                list,
                bindings,
                platform,
            )[k]).action == bindings[i].action,
    decreases bindings.len(),
{
    let rest = bindings.drop_last();
    let before = absorbed(list, rest, platform);
    let b = bindings.last();
    let after = absorbed(list, bindings, platform);
    lemma_action_index(before, b.action);
    if i < rest.len() {
        lemma_absorbs(list, rest, platform, i);
        assert(rest[i] == bindings[i]);
        let k = choose|k: int| 0 <= k < before.len() && (#[trigger] before[k]).action == rest[i].action;
        assert(after[k].action == before[k].action);
    } else {
        let at = action_index(before, b.action);
        assert(after[at].action == b.action);
    }
}

proof fn lemma_in_palette(config: Config, map: InputMap, c: ExpandedView)
    requires
        rekeyed(
            absorbed(expansions(core_actions(), config), bound(map.default@), config.platform),
            config,
            map,
        ).contains(c),
    ensures
        exists|i: int| 0 <= i < palette_of(config, map).len() && same_item(
            #[trigger] palette_of(config, map)[i],
            c,
        ),
{
    let keyed = rekeyed(
        absorbed(expansions(core_actions(), config), bound(map.default@), config.platform),
        config,
        map,
    );
    lemma_deduped(keyed, config);
    let items = palette_items(config, map);
    let k = choose|k: int| 0 <= k < keyed.len() && keyed[k] == c;
    assert(has_item(items, keyed[k]));
    let j = choose|j: int| 0 <= j < items.len() && same_item(#[trigger] items[j], c);
    palette_is_sorted(config, map);
    assert(items.contains(items[j]));
    let i = choose|i: int|
        0 <= i < palette_of(config, map).len() && palette_of(config, map)[i] == items[j];
    assert(same_item(palette_of(config, map)[i], c));
}

/// What the palette takes for the same item: the confirming and the plain way to
/// close, and a new tab in the current and the default domain.
pub open spec fn alike(a: ActionView, b: ActionView) -> bool {
    ||| a == b
    ||| a is CloseCurrentTab && b is CloseCurrentTab
    ||| a is CloseCurrentPane && b is CloseCurrentPane
    ||| (a == ActionView::SpawnTab(DomainView::CurrentPaneDomain) || a == ActionView::SpawnTab(
        DomainView::DefaultDomain,
    )) && (b == ActionView::SpawnTab(DomainView::CurrentPaneDomain) || b == ActionView::SpawnTab(
        DomainView::DefaultDomain,
    ))
}

/// Entries are one item exactly where their labels read the same and their
/// actions are alike.
pub proof fn items_are_told_apart_by_label_and_action(a: ExpandedView, b: ExpandedView)
    ensures
        same_item(a, b) <==> lowered(trimmed(a.brief)) == lowered(trimmed(b.brief)) && alike(
            a.action,
            b.action,
        ),
{
    reveal(item_of);
}

/// What has no place in the palette although it has a key: plain input, compound
/// actions, and the tabs by number.
pub open spec fn clutters(action: ActionView) -> bool {
    action is SendString || action is SendKey || action is Nop || action is Multiple
        || action is ActivateTab
}

/// Every action that has a key by default and a command is in the palette, but
/// for those that would clutter it.
pub proof fn bound_actions_are_in_the_palette(config: Config, map: InputMap, i: int)
    requires
        0 <= i < map.default@.len(),
        command_of(map.default@[i].action@, config.platform) is Some,
        !clutters(map.default@[i].action@),
    ensures
        exists|k: int|
            0 <= k < palette_of(config, map).len() && alike(
                (#[trigger] palette_of(config, map)[k]).action,
                map.default@[i].action@,
            ),
{
    let b = bound(map.default@);
    let core = expansions(core_actions(), config);
    let offered = absorbed(core, b, config.platform);
    lemma_absorbs(core, b, config.platform, i);
    let k = choose|k: int| 0 <= k < offered.len() && (#[trigger] offered[k]).action == b[i].action;
    let keyed = rekeyed(offered, config, map);
    assert(keyed.contains(keyed[k]));
    lemma_in_palette(config, map, keyed[k]);
    let n = choose|n: int| 0 <= n < palette_of(config, map).len() && same_item(
        #[trigger] palette_of(config, map)[n],
        keyed[k],
    );
    items_are_told_apart_by_label_and_action(palette_of(config, map)[n], keyed[k]);
}

/// How well an entry is bound: by the user, at all, or not.
pub open spec fn level(c: ExpandedView, config: Config) -> int {
    if exists|i: int| 0 <= i < config.keys@.len() && (#[trigger] config.keys@[i]).action@ == c.action {
        2
    } else if c.keys.len() > 0 {
        1
    } else {
        0
    }
}

proof fn lemma_best(list: Seq<ExpandedView>, config: Config, k: int)
    requires
        0 <= k < list.len(),
    ensures
        exists|i: int|
            0 <= i < deduped(list, config).len() && same_item(
                #[trigger] deduped(list, config)[i],
                list[k],
            ) && level(deduped(list, config)[i], config) >= level(list[k], config) && (level(
                deduped(list, config)[i],
                config,
            ) == level(list[k], config) ==> deduped(list, config)[i].keys.len()
                >= list[k].keys.len()),
    decreases list.len(),
{
    let rest = list.drop_last();
    let before = deduped(rest, config);
    let c = list.last();
    let at = item_index(before, c);
    lemma_item_index(before, c);
    let after = deduped(list, config);
    assert(forall|x: ExpandedView| #[trigger] level(x, config) == binding_level(x, config));
    if k < rest.len() {
        lemma_best(rest, config, k);
        assert(rest[k] == list[k]);
        let i = choose|i: int|
            0 <= i < before.len() && same_item(#[trigger] before[i], rest[k]) && level(
                before[i],
                config,
            ) >= level(rest[k], config) && (level(before[i], config) == level(rest[k], config)
                ==> before[i].keys.len() >= rest[k].keys.len());
        assert(same_item(after[i], list[k]));
    } else {
        if at < before.len() {
            assert(same_item(after[at], c));
        } else {
            assert(after[before.len() as int] == c);
            assert(same_item(after[before.len() as int], c));
        }
    }
}

/// Of entries that are one item the best bound stands in the palette: one that
/// the user bound before one that only has keys, that before one that has none,
/// and otherwise the one with the most keys.
pub proof fn the_best_bound_entry_stands(
    config: Config,
    map: InputMap,
    c: ExpandedView,
)
    requires
        rekeyed(
            absorbed(expansions(core_actions(), config), bound(map.default@), config.platform),
            config,
            map,
        ).contains(c),
    ensures
        exists|i: int|
            0 <= i < palette_of(config, map).len() && same_item(
                #[trigger] palette_of(config, map)[i],
                c,
            ) && level(palette_of(config, map)[i], config) >= level(c, config) && (level(
                palette_of(config, map)[i],
                config,
            ) == level(c, config) ==> palette_of(config, map)[i].keys.len() >= c.keys.len()),
{
    let keyed = rekeyed(
        absorbed(expansions(core_actions(), config), bound(map.default@), config.platform),
        config,
        map,
    );
    let k = choose|k: int| 0 <= k < keyed.len() && keyed[k] == c;
    lemma_best(keyed, config, k);
    let items = palette_items(config, map);
    let j = choose|j: int|
        0 <= j < items.len() && same_item(#[trigger] items[j], c) && level(items[j], config)
            >= level(c, config) && (level(items[j], config) == level(c, config)
            ==> items[j].keys.len() >= c.keys.len());
    palette_is_sorted(config, map);
    assert(items.contains(items[j]));
    let i = choose|i: int|
        0 <= i < palette_of(config, map).len() && palette_of(config, map)[i] == items[j];
    assert(same_item(palette_of(config, map)[i], c));
}

/// What one does every day: windows, tabs, the clipboard, the size of the text.
pub open spec fn everyday(action: ActionView) -> bool {
    matches!(
        action,
        ActionView::SpawnWindow | ActionView::SpawnTab(_) | ActionView::CopyTo(_)
            | ActionView::PasteFrom(_) | ActionView::CloseCurrentTab { .. }
            | ActionView::CloseCurrentPane { .. } | ActionView::Hide | ActionView::ToggleFullScreen
            | ActionView::IncreaseFontSize | ActionView::DecreaseFontSize
            | ActionView::ResetFontSize | ActionView::ResetFontAndWindowSize
    )
}

/// What one hardly ever does.
pub open spec fn seldom(action: ActionView) -> bool {
    matches!(
        action,
        ActionView::ShowDebugOverlay | ActionView::OpenUri(_) | ActionView::ScrollToTop
            | ActionView::ScrollToBottom | ActionView::ToggleAlwaysOnBottom
    )
}

/// The palette begins with what one does every day and ends with what one hardly
/// ever does.
pub proof fn everyday_commands_come_first(config: Config, map: InputMap, i: int, j: int)
    requires
        0 <= i < j < palette_of(config, map).len(),
    ensures
        everyday(palette_of(config, map)[j].action) ==> everyday(palette_of(config, map)[i].action),
        seldom(palette_of(config, map)[i].action) ==> seldom(palette_of(config, map)[j].action),
{
    palette_is_sorted(config, map);
    assert(key_le(browse_key(palette_of(config, map)[i]), browse_key(palette_of(config, map)[j])));
}

/// What is worth finding out about: splitting, searching, launching, and going
/// from tab to tab or pane to pane.
pub open spec fn worth_knowing(action: ActionView) -> bool {
    ||| matches!(
        action,
        ActionView::SplitHorizontal(_) | ActionView::SplitVertical(_) | ActionView::Search(_)
            | ActionView::QuickSelect | ActionView::ShowLauncher | ActionView::ShowLauncherArgs(_)
            | ActionView::ShowTabNavigator | ActionView::RestorePreviousWindow
            | ActionView::ActivateTabRelative(_) | ActionView::ActivateLastTab
            | ActionView::MoveTabRelative(_) | ActionView::TogglePaneZoomState
            | ActionView::AdjustPaneSize(_, _) | ActionView::ActivatePaneDirection(_)
    )
    ||| action == ActionView::EmitEvent("kaku-ai-chat"@)
    ||| action == ActionView::EmitEvent("kaku-launch-lazygit"@)
    ||| action == ActionView::EmitEvent("kaku-launch-yazi"@)
    ||| action == ActionView::EmitEvent("run-kaku-ai-config"@)
}

/// What has a key, of the commands that are neither for every day nor for hardly
/// ever.
pub open spec fn has_key(c: ExpandedView) -> bool {
    c.keys.len() > 0
}

/// Behind what one does every day stands what is worth knowing, then what has a
/// key, then what has none.
pub proof fn commands_with_keys_come_before_those_without(
    config: Config,
    map: InputMap,
    i: int,
    j: int,
)
    requires
        0 <= i < j < palette_of(config, map).len(),
        !seldom(palette_of(config, map)[i].action),
        !seldom(palette_of(config, map)[j].action),
        !everyday(palette_of(config, map)[i].action),
        !everyday(palette_of(config, map)[j].action),
    ensures
        worth_knowing(palette_of(config, map)[j].action) ==> worth_knowing(
            palette_of(config, map)[i].action,
        ),
        has_key(palette_of(config, map)[j]) ==> has_key(palette_of(config, map)[i])
            || worth_knowing(palette_of(config, map)[i].action) || worth_knowing(
            palette_of(config, map)[j].action,
        ),
{
    palette_is_sorted(config, map);
    assert(key_le(browse_key(palette_of(config, map)[i]), browse_key(palette_of(config, map)[j])));
}

/// The place of a menu among the five whose commands are kept together.
pub open spec fn menu_place(c: ExpandedView) -> int {
    if c.menubar.len() > 0 && c.menubar[0] == "Shell"@ {
        0
    } else if c.menubar.len() > 0 && c.menubar[0] == "Edit"@ {
        1
    } else if c.menubar.len() > 0 && c.menubar[0] == "View"@ {
        2
    } else if c.menubar.len() > 0 && c.menubar[0] == "Window"@ {
        3
    } else if c.menubar.len() > 0 && c.menubar[0] == "Help"@ {
        4
    } else {
        5
    }
}

/// Commands for every day stand by menu, and within a menu by label; so do those
/// for hardly ever.
pub proof fn commands_stand_by_menu(config: Config, map: InputMap, i: int, j: int)
    requires
        0 <= i < j < palette_of(config, map).len(),
        everyday(palette_of(config, map)[i].action) && everyday(palette_of(config, map)[j].action)
            || seldom(palette_of(config, map)[i].action) && seldom(
            palette_of(config, map)[j].action,
        ),
    ensures
        menu_place(palette_of(config, map)[i]) <= menu_place(palette_of(config, map)[j]),
        menu_place(palette_of(config, map)[i]) == menu_place(palette_of(config, map)[j])
            ==> text_le(palette_of(config, map)[i].brief, palette_of(config, map)[j].brief),
{
    palette_is_sorted(config, map);
    assert(key_le(browse_key(palette_of(config, map)[i]), browse_key(palette_of(config, map)[j])));
}

// ---------------------------------------------------------------------------
// The commands of the state
// ---------------------------------------------------------------------------

/// Every entry of the launch menu has a command that spawns it in a new tab,
/// under its label, or its words where it has none.
pub proof fn launch_entries_are_offered(menu: Seq<crate::key_assignment::SpawnCommand>, i: int)
    requires
        0 <= i < menu.len(),
    ensures
        launch_commands(menu).len() == menu.len(),
        launch_commands(menu)[i].action == ActionView::SpawnCommandInNewTab(menu[i]@),
        menu[i]@.label matches Some(label) ==> label.is_prefix_of(launch_commands(menu)[i].brief),
        menu[i]@.label is None ==> (menu[i]@.args matches Some(args) ==> joined(
            args,
            " "@,
        ).is_prefix_of(launch_commands(menu)[i].brief)),
        launch_commands(menu)[i].menubar == seq!["Shell"@],
        launch_commands(menu)[i].keys.len() == 0,
{
    let label = launch_label(menu[i]@);
    let brief = launch_commands(menu)[i].brief;
    assert(brief == label + " (New Tab)"@);
    assert(brief.subrange(0, label.len() as int) =~= label);
}

proof fn lemma_domain_offered(domains: Seq<NamedDomain>, i: int)
    requires
        0 <= i < domains.len(),
    ensures
        domains[i].spawnable ==> domain_commands(domains).contains(domain_command(domains[i])),
        domains[i].attached && domains[i].name != "local"@ ==> detach_commands(domains).contains(
            detach_command(domains[i]),
        ),
    decreases domains.len(),
{
    let rest = domains.drop_last();
    let a = domain_commands(rest);
    let b = detach_commands(rest);
    let all = domain_commands(domains);
    let detach = detach_commands(domains);
    if i < rest.len() {
        lemma_domain_offered(rest, i);
        assert(rest[i] == domains[i]);
        if domains[i].spawnable {
            let c = domain_command(domains[i]);
            let k = choose|k: int| 0 <= k < a.len() && a[k] == c;
            assert(all[k] == c);
        }
        if domains[i].attached && domains[i].name != "local"@ {
            let c = detach_command(domains[i]);
            let k = choose|k: int| 0 <= k < b.len() && b[k] == c;
            assert(detach[k] == c);
        }
    } else {
        if domains[i].spawnable {
            assert(all[a.len() as int] == domain_command(domains[i]));
        }
        if domains[i].attached && domains[i].name != "local"@ {
            assert(detach[b.len() as int] == detach_command(domains[i]));
        }
    }
}

proof fn lemma_none_detached(domains: Seq<NamedDomain>, k: int)
    requires
        0 <= k < detach_commands(domains).len(),
    ensures
        exists|i: int|
            0 <= i < domains.len() && (#[trigger] domains[i]).attached && domains[i].name
                != "local"@ && detach_commands(domains)[k].action == ActionView::DetachDomain(
                DomainView::DomainName(domains[i].name),
            ),
    decreases domains.len(),
{
    if domains.len() > 0 {
        let rest = domains.drop_last();
        let before = detach_commands(rest);
        if k < before.len() {
            lemma_none_detached(rest, k);
            let i = choose|i: int|
                0 <= i < rest.len() && (#[trigger] rest[i]).attached && rest[i].name != "local"@
                    && before[k].action == ActionView::DetachDomain(
                    DomainView::DomainName(rest[i].name),
                );
            assert(domains[i] == rest[i]);
        } else {
            assert(domains[domains.len() - 1] == domains.last());
        }
    }
}

/// A domain that can spawn is offered: to open a tab in it where it is attached,
/// else to attach it.
pub proof fn domains_are_offered(domains: Seq<NamedDomain>, i: int)
    requires
        0 <= i < domains.len(),
        domains[i].spawnable,
    ensures
        exists|k: int|
            0 <= k < domain_commands(domains).len() && (#[trigger] domain_commands(
                domains,
            )[k]).action == (if domains[i].attached {
                ActionView::SpawnCommandInNewTab(
                    plain_command(DomainView::DomainName(domains[i].name)),
                )
            } else {
                ActionView::AttachDomain(domains[i].name)
            }) && holds(domain_commands(domains)[k].brief, domains[i].name),
{
    lemma_domain_offered(domains, i);
    let all = domain_commands(domains);
    let c = domain_command(domains[i]);
    let k = choose|k: int| 0 <= k < all.len() && all[k] == c;
    lemma_stands_between("New Tab (Domain "@, domains[i].name, ")"@);
    lemma_stands_between("Attach Domain "@, domains[i].name, seq![]);
    assert("Attach Domain "@ + domains[i].name + seq![] =~= "Attach Domain "@ + domains[i].name);
    assert(all[k].action == c.action);
}

/// The domains that can be detached are those that are attached, all but the
/// local one.
pub proof fn attached_domains_can_be_detached(domains: Seq<NamedDomain>, name: Seq<char>)
    ensures
        (exists|k: int|
            0 <= k < detach_commands(domains).len() && (#[trigger] detach_commands(
                domains,
            )[k]).action == ActionView::DetachDomain(DomainView::DomainName(name))) <==> (exists|
            i: int,
        |
            0 <= i < domains.len() && (#[trigger] domains[i]).attached && domains[i].name == name)
            && name != "local"@,
{
    let all = detach_commands(domains);
    let action = ActionView::DetachDomain(DomainView::DomainName(name));
    if exists|k: int| 0 <= k < all.len() && (#[trigger] all[k]).action == action {
        let k = choose|k: int| 0 <= k < all.len() && (#[trigger] all[k]).action == action;
        lemma_none_detached(domains, k);
    }
    if (exists|i: int|
        0 <= i < domains.len() && (#[trigger] domains[i]).attached && domains[i].name == name)
        && name != "local"@ {
        let i = choose|i: int|
            0 <= i < domains.len() && (#[trigger] domains[i]).attached && domains[i].name == name;
        lemma_domain_offered(domains, i);
        let k = choose|k: int| 0 <= k < all.len() && all[k] == detach_command(domains[i]);
        assert(all[k].action == action);
    }
}

/// Domains come with the attached ones first, each group by number.
pub proof fn attached_domains_come_first(list: Seq<NamedDomain>, i: int, j: int)
    requires
        0 <= i < j < sorted_domains(list).len(),
    ensures
        sorted_domains(list)[j].attached ==> sorted_domains(list)[i].attached,
        sorted_domains(list)[i].attached == sorted_domains(list)[j].attached ==> sorted_domains(
            list,
        )[i].id <= sorted_domains(list)[j].id,
        sorted_domains(list).len() == list.len(),
{
    let ranks = domain_ranks(list);
    stable_order_sorts(ranks);
    let order = stable_order(ranks);
    assert(precedes(ranks, order[i], order[j]));
}

/// One can switch to every workspace but the active one, by its name.
pub proof fn other_workspaces_can_be_switched_to(
    active: Seq<char>,
    workspaces: Seq<Seq<char>>,
    name: Seq<char>,
)
    ensures
        (exists|k: int|
            0 <= k < workspace_commands(active, workspaces).len() && (
            #[trigger] workspace_commands(active, workspaces)[k]).action
                == (ActionView::SwitchToWorkspace { name: Some(name), spawn: None }))
            <==> workspaces.contains(name) && name != active,
        forall|k: int|
            0 <= k < workspace_commands(active, workspaces).len() ==> (
            #[trigger] workspace_commands(active, workspaces)[k]).menubar == seq!["Window"@],
    decreases workspaces.len(),
{
    if workspaces.len() > 0 {
        let rest = workspaces.drop_last();
        other_workspaces_can_be_switched_to(active, rest, name);
        let before = workspace_commands(active, rest);
        let all = workspace_commands(active, workspaces);
        let wanted = ActionView::SwitchToWorkspace { name: Some(name), spawn: None };
        if exists|k: int| 0 <= k < before.len() && (#[trigger] before[k]).action == wanted {
            let k = choose|k: int| 0 <= k < before.len() && (#[trigger] before[k]).action == wanted;
            assert(all[k].action == wanted);
            let n = choose|n: int| 0 <= n < rest.len() && rest[n] == name;
            assert(workspaces[n] == name);
        } else if workspaces.last() == name && name != active {
            assert(all[before.len() as int].action == wanted);
            assert(workspaces[workspaces.len() - 1] == name);
        } else {
            assert forall|k: int| 0 <= k < all.len() && (#[trigger] all[k]).action
                == wanted implies false by {
                if k < before.len() {
                    assert(before[k].action == wanted);
                }
            }
            if workspaces.contains(name) && name != active {
                let n = choose|n: int| 0 <= n < workspaces.len() && workspaces[n] == name;
                assert(rest[n] == name);
            }
        }
    }
}

proof fn lemma_swept(list: Seq<ExpandedView>, bindings: Seq<BindingView>, platform: Platform, i: int)
    requires
        0 <= i < bindings.len(),
        command_of(bindings[i].action, platform) is Some,
    ensures
        exists|k: int|
            0 <= k < swept_bindings(list, bindings, platform).len() && (#[trigger] swept_bindings(
                list,
                bindings,
                platform,
            )[k]).action == bindings[i].action,
    decreases bindings.len(),
{
    let rest = bindings.drop_last();
    let before = swept_bindings(list, rest, platform);
    let after = swept_bindings(list, bindings, platform);
    lemma_action_index(before, bindings.last().action);
    if i < rest.len() {
        lemma_swept(list, rest, platform, i);
        assert(rest[i] == bindings[i]);
        let k = choose|k: int|
            0 <= k < before.len() && (#[trigger] before[k]).action == rest[i].action;
        assert(after[k] == before[k]);
    } else {
        assert(after[action_index(before, bindings.last().action)].action
            == bindings.last().action);
    }
}

proof fn lemma_named(list: Seq<ExpandedView>, actions: Seq<ActionView>, platform: Platform)
    ensures
        list.is_prefix_of(swept_named(list, actions, platform)),
        forall|i: int|
            0 <= i < actions.len() && command_of(#[trigger] actions[i], platform) is Some
                ==> offers(swept_named(list, actions, platform), actions[i]),
    decreases actions.len(),
{
    if actions.len() == 0 {
        assert(list.subrange(0, list.len() as int) =~= list);
    } else {
        let rest = actions.drop_last();
        lemma_named(list, rest, platform);
        let before = swept_named(list, rest, platform);
        let after = swept_named(list, actions, platform);
        let last = actions.last();
        lemma_action_index(before, last);
        assert(after.subrange(0, list.len() as int) =~= before.subrange(0, list.len() as int));
        assert forall|i: int|
            0 <= i < actions.len() && command_of(
                #[trigger] actions[i],
                platform,
            ) is Some implies offers(after, actions[i]) by {
            if i < rest.len() {
                assert(rest[i] == actions[i]);
                let k = choose|k: int|
                    0 <= k < before.len() && (#[trigger] before[k]).action == rest[i];
                assert(after[k] == before[k]);
                assert(after[k].action == actions[i]);
            } else {
                assert(after[action_index(before, last)].action == last);
            }
        }
    }
}

/// Whether a list of commands has one for the action.
pub open spec fn offers(list: Seq<ExpandedView>, action: ActionView) -> bool {
    exists|k: int| 0 <= k < list.len() && (#[trigger] list[k]).action == action
}

/// Whatever has a key in some table and a command is offered, behind what is
/// offered anyway.
pub proof fn whatever_has_a_key_is_offered(
    config: Config,
    map: InputMap,
    mux: Option<crate::menubar::MuxState>,
    i: int,
)
    ensures
        listed_commands(config, mux).is_prefix_of(all_commands(config, map, mux)),
        0 <= i < map.default@.len() && command_of(map.default@[i].action@, config.platform) is Some
            ==> offers(all_commands(config, map, mux), map.default@[i].action@),
        0 <= i < map.named@.len() && command_of(
            crate::key_assignment::action_views(map.named@)[i],
            config.platform,
        ) is Some ==> offers(
            all_commands(config, map, mux),
            crate::key_assignment::action_views(map.named@)[i],
        ),
{
    let first = listed_commands(config, mux);
    let b = bound(map.default@);
    let swept = swept_bindings(first, b, config.platform);
    let named = crate::key_assignment::action_views(map.named@);
    let all = all_commands(config, map, mux);
    swept_commands_are_new(first, b, config.platform);
    lemma_named(swept, named, config.platform);
    assert(all.subrange(0, first.len() as int) =~= swept.subrange(0, first.len() as int)) by {
        assert(all.subrange(0, swept.len() as int) == swept);
        assert forall|k: int| 0 <= k < first.len() implies all[k] == swept[k] by {
            assert(all.subrange(0, swept.len() as int)[k] == swept[k]);
        }
    }
    if 0 <= i < b.len() && command_of(b[i].action, config.platform) is Some {
        lemma_swept(first, b, config.platform, i);
        let k = choose|k: int| 0 <= k < swept.len() && (#[trigger] swept[k]).action == b[i].action;
        assert(all.subrange(0, swept.len() as int)[k] == swept[k]);
        assert(all[k].action == b[i].action);
    }
    if 0 <= i < named.len() && command_of(named[i], config.platform) is Some {
        assert(offers(all, named[i]));
    }
}

// ---------------------------------------------------------------------------
// The menus
// ---------------------------------------------------------------------------

/// A separator stands before an item of the menu itself exactly where the item
/// before it, of the menu itself too, is of another group; the first has none.
pub proof fn separators_stand_between_groups(
    title: Seq<char>,
    list: Seq<ExpandedView>,
    map: InputMap,
    t: Translations,
    i: int,
)
    requires
        0 <= i < list.len(),
    ensures
        menu_plan(title, list, map, t).len() == list.len(),
        i == 0 ==> !menu_plan(title, list, map, t)[i].separator,
        list[i].menubar.len() != 1 ==> !menu_plan(title, list, map, t)[i].separator,
        i > 0 && list[i].menubar.len() == 1 && list[i - 1].menubar.len() == 1 ==> menu_plan(
            title,
            list,
            map,
            t,
        )[i].separator == (menu_group(title, menu_rank(title, list[i - 1].action)) != menu_group(
            title,
            menu_rank(title, list[i].action),
        )),
{
    if i > 0 {
        assert(list.take(i).last() == list[i - 1]);
    }
}

/// Whether the first action stands before the second in the menu, in another
/// group.
pub open spec fn parted(title: Seq<char>, a: ActionView, b: ActionView) -> bool {
    menu_rank(title, a) < menu_rank(title, b) && menu_group(title, menu_rank(title, a))
        < menu_group(title, menu_rank(title, b))
}

/// Whether the first action stands before the second in the menu, in one group.
pub open spec fn together(title: Seq<char>, a: ActionView, b: ActionView) -> bool {
    menu_rank(title, a) <= menu_rank(title, b) && menu_group(title, menu_rank(title, a))
        == menu_group(title, menu_rank(title, b))
}

/// In the Shell menu, what opens comes before what splits, that before what
/// closes, that before the domains, whatever they are about.
pub proof fn the_shell_menu_opens_splits_and_closes(
    domain: DomainView,
    split: SpawnCommandView,
    other: SpawnCommandView,
    confirm: bool,
    name: Seq<char>,
)
    ensures
        together("Shell"@, ActionView::SpawnWindow, ActionView::SpawnTab(domain)),
        parted("Shell"@, ActionView::SpawnTab(domain), ActionView::SplitVertical(split)),
        together("Shell"@, ActionView::SplitHorizontal(other), ActionView::SplitVertical(split)),
        parted("Shell"@, ActionView::SplitHorizontal(split), ActionView::CloseCurrentTab { confirm }),
        together(
            "Shell"@,
            ActionView::CloseCurrentTab { confirm },
            ActionView::CloseCurrentPane { confirm },
        ),
        together(
            "Shell"@,
            ActionView::CloseCurrentPane { confirm },
            ActionView::RestorePreviousWindow,
        ),
        parted("Shell"@, ActionView::RestorePreviousWindow, ActionView::ShowLauncher),
        parted("Shell"@, ActionView::ShowLauncher, ActionView::AttachDomain(name)),
        together("Shell"@, ActionView::AttachDomain(name), ActionView::DetachDomain(domain)),
        parted("Shell"@, ActionView::SpawnWindow, ActionView::ActivateCommandPalette),
        parted("Shell"@, ActionView::ActivateCommandPalette, ActionView::SplitVertical(split)),
{
    lemma_titles();
}

/// In the Edit menu, the clipboard comes before searching, that before clearing;
/// in the View menu, the size of the text before scrolling.
pub proof fn the_edit_and_view_menus_are_grouped(
    destination: ClipboardCopyDestination,
    source: ClipboardPasteSource,
    pattern: crate::key_assignment::PatternView,
    mode: crate::key_assignment::ScrollbackEraseMode,
)
    ensures
        together("Edit"@, ActionView::CopyTo(destination), ActionView::PasteFrom(source)),
        menu_rank("Edit"@, ActionView::CopyTo(destination)) < menu_rank(
            "Edit"@,
            ActionView::PasteFrom(source),
        ),
        parted("Edit"@, ActionView::PasteFrom(source), ActionView::Search(pattern)),
        together("Edit"@, ActionView::Search(pattern), ActionView::QuickSelect),
        parted("Edit"@, ActionView::QuickSelect, ActionView::ClearScrollback(mode)),
        together("View"@, ActionView::ResetFontSize, ActionView::IncreaseFontSize),
        together("View"@, ActionView::IncreaseFontSize, ActionView::DecreaseFontSize),
        together("View"@, ActionView::DecreaseFontSize, ActionView::ResetFontAndWindowSize),
        parted("View"@, ActionView::ResetFontAndWindowSize, ActionView::ScrollToTop),
        together("View"@, ActionView::ScrollToTop, ActionView::ScrollToBottom),
        menu_rank("Kaku"@, ActionView::HideApplication) < menu_rank(
            "Kaku"@,
            ActionView::QuitApplication,
        ),
{
    lemma_titles();
}

/// In the Window menu, the window itself comes first, then the other windows, the
/// tabs, moving tabs, and the zoom of panes; the previous always stands before
/// the next.
pub proof fn the_window_menu_is_grouped(n: usize, name: Option<Seq<char>>, prog: Option<SpawnCommandView>)
    ensures
        together("Window"@, ActionView::Hide, ActionView::ToggleFullScreen),
        together("Window"@, ActionView::ToggleFullScreen, ActionView::ToggleAlwaysOnTop),
        parted("Window"@, ActionView::ToggleAlwaysOnTop, ActionView::ActivateWindowRelative(-1 as isize)),
        together(
            "Window"@,
            ActionView::ActivateWindowRelative(-1 as isize),
            ActionView::ActivateWindowRelative(1),
        ),
        together("Window"@, ActionView::ActivateWindowRelative(1), ActionView::ActivateWindow(n)),
        parted("Window"@, ActionView::ActivateWindow(n), ActionView::ActivateTabRelative(-1 as isize)),
        together(
            "Window"@,
            ActionView::ActivateTabRelative(-1 as isize),
            ActionView::ActivateTabRelative(1),
        ),
        together("Window"@, ActionView::ActivateTabRelative(1), ActionView::ActivateLastTab),
        together("Window"@, ActionView::ActivateLastTab, ActionView::ShowTabNavigator),
        parted("Window"@, ActionView::ShowTabNavigator, ActionView::MoveTabRelative(-1 as isize)),
        together("Window"@, ActionView::MoveTabRelative(-1 as isize), ActionView::MoveTabRelative(1)),
        parted("Window"@, ActionView::MoveTabRelative(1), ActionView::TogglePaneZoomState),
        parted(
            "Window"@,
            ActionView::TogglePaneZoomState,
            ActionView::SwitchToWorkspace { name, spawn: prog },
        ),
{
    lemma_titles();
}

proof fn lemma_titles()
    ensures
        "Kaku"@ != "Shell"@,
        "Kaku"@ != "Edit"@,
        "Kaku"@ != "View"@,
        "Shell"@ != "Edit"@,
        "Shell"@ != "View"@,
        "Shell"@ != "Window"@,
        "Edit"@ != "View"@,
        "Window"@ != "Edit"@,
        "Window"@ != "View"@,
        "Window"@ != "Kaku"@,
{
    reveal_strlit("Kaku");
    reveal_strlit("Shell");
    reveal_strlit("Edit");
    reveal_strlit("View");
    reveal_strlit("Window");
    assert("Kaku"@[0] == 'K');
    assert("Edit"@[0] == 'E');
    assert("View"@[0] == 'V');
    assert("Shell"@.len() == 5);
    assert("Window"@.len() == 6);
}

proof fn lemma_located(list: Seq<BindingView>, action: ActionView, m: u16, k: KeyCode)
    ensures
        located(list, action).contains((m, k)) <==> binds(list, action, m, k),
    decreases list.len(),
{
    if list.len() > 0 {
        let rest = list.drop_last();
        lemma_located(rest, action, m, k);
        let before = located(rest, action);
        let all = located(list, action);
        let b = list.last();
        if before.contains((m, k)) {
            let i = choose|i: int| 0 <= i < before.len() && before[i] == (m, k);
            assert(all[i] == (m, k));
            let j = choose|j: int|
                0 <= j < rest.len() && (#[trigger] rest[j]).action == action && rest[j].mods == m
                    && rest[j].key == k;
            assert(list[j] == rest[j]);
        } else if b.action == action && b.mods == m && b.key == k {
            assert(all[before.len() as int] == (m, k));
            assert(list[list.len() - 1] == b);
        } else {
            if all.contains((m, k)) {
                let i = choose|i: int| 0 <= i < all.len() && all[i] == (m, k);
                assert(before[i] == (m, k));
            }
            assert forall|j: int|
                0 <= j < list.len() && (#[trigger] list[j]).action == action && list[j].mods == m
                    && list[j].key == k implies false by {
                if j < rest.len() {
                    assert(rest[j] == list[j]);
                }
            }
        }
    }
}

/// The shortcut of a menu item is a chord that is bound to its action everywhere,
/// none of which weighs more, with each of its modifiers.
pub proof fn menu_items_show_a_bound_chord(
    title: Seq<char>,
    list: Seq<ExpandedView>,
    map: InputMap,
    t: Translations,
    i: int,
    m: u16,
    k: KeyCode,
)
    requires
        0 <= i < list.len(),
        binds(bound(map.app_wide@), list[i].action, m, k),
    ensures
        menu_plan(title, list, map, t)[i].shortcut matches Some(s) ==> exists|n: u16, key: KeyCode|
            #[trigger] binds(bound(map.app_wide@), list[i].action, n, key) && weight(n) >= weight(m)
                && key.glyph == Some(s.glyph) && s.shift == (n & SHIFT == SHIFT) && s.alt == (n
                & ALT == ALT) && s.ctrl == (n & CTRL == CTRL) && s.command == (n & SUPER == SUPER),
        menu_plan(title, list, map, t)[i].shortcut is None ==> exists|n: u16, key: KeyCode|
            #[trigger] binds(bound(map.app_wide@), list[i].action, n, key) && weight(n) >= weight(m)
                && key.glyph is None,
{
    let b = bound(map.app_wide@);
    let chords = located(b, list[i].action);
    let sorted = by_preference(chords);
    lemma_located(b, list[i].action, m, k);
    lemma_preference(chords);
    assert(sorted.contains((m, k)));
    let at = choose|at: int| 0 <= at < sorted.len() && sorted[at] == (m, k);
    let first = sorted[0];
    assert(sorted.contains(first));
    lemma_located(b, list[i].action, first.0, first.1);
    assert(binds(b, list[i].action, first.0, first.1));
    if at > 0 {
        assert(key_le(chord_rank(sorted[0]), chord_rank(sorted[at])));
    }
    assert(weight(first.0) >= weight(m));
}

/// A version is shown without the letters that lead its tag.
pub proof fn versions_are_bare(tag: Seq<char>)
    ensures
        bare_version(tag).is_suffix_of(tag),
        bare_version(tag).len() > 0 ==> bare_version(tag)[0] != 'v' && bare_version(tag)[0] != 'V',
        forall|k: int|
            0 <= k < tag.len() - bare_version(tag).len() ==> #[trigger] tag[k] == 'v' || tag[k]
                == 'V',
    decreases tag.len(),
{
    if tag.len() > 0 && (tag[0] == 'v' || tag[0] == 'V') {
        let rest = tag.drop_first();
        versions_are_bare(rest);
        let w = bare_version(rest);
        assert(tag.subrange(tag.len() - w.len(), tag.len() as int) =~= rest.subrange(
            rest.len() - w.len(),
            rest.len() as int,
        ));
        assert forall|k: int| 0 <= k < tag.len() - w.len() implies #[trigger] tag[k] == 'v'
            || tag[k] == 'V' by {
            if k > 0 {
                assert(rest[k - 1] == tag[k]);
            }
        }
    } else {
        assert(tag.subrange(0, tag.len() as int) =~= tag);
    }
}

/// Whether an item of the application menu raises the event.
pub open spec fn raises(item: ApplicationItemView, event: Seq<char>) -> bool {
    item matches ApplicationItemView::Event { event: e, .. } && e == event
}

/// The application menu offers a restart exactly where an update is staged, and
/// names its version; the first item names that of the program.
pub proof fn staged_updates_are_offered(
    version: Seq<char>,
    staged: Option<Seq<char>>,
    standard: Option<bool>,
    t: Translations,
)
    ensures
        (exists|k: int|
            0 <= k < application_menu(version, staged, standard, t).len() && raises(
                #[trigger] application_menu(version, staged, standard, t)[k],
                "restart-to-update"@,
            )) <==> staged is Some,
        staged matches Some(tag) ==> exists|k: int|
            0 <= k < application_menu(version, staged, standard, t).len() && ((
            #[trigger] application_menu(version, staged, standard, t)[k]) matches
                ApplicationItemView::Event { title, event, checked }
                && event == "restart-to-update"@ && holds(title, bare_version(tag))),
        application_menu(version, staged, standard, t)[0] matches ApplicationItemView::Event {
            title,
            ..
        } && version.is_suffix_of(title),
        exists|k: int|
            0 <= k < application_menu(version, staged, standard, t).len() && ((
            #[trigger] application_menu(version, staged, standard, t)[k]) matches
                ApplicationItemView::Event { title, event, checked }
                && event == "set-default-terminal"@ && checked == standard),
{
    reveal_strlit("restart-to-update");
    reveal_strlit("run-kaku-cli");
    reveal_strlit("run-kaku-update");
    reveal_strlit("set-default-terminal");
    let menu = application_menu(version, staged, standard, t);
    assert("run-kaku-cli"@.len() != "restart-to-update"@.len());
    assert("run-kaku-update"@.len() != "restart-to-update"@.len());
    assert("set-default-terminal"@.len() != "restart-to-update"@.len());
    let first = "Kaku V"@ + version;
    assert(first.subrange(first.len() - version.len(), first.len() as int) =~= version);
    if let Some(tag) = staged {
        lemma_stands_between("Restart to Update ("@, bare_version(tag), ")"@);
        assert(raises(menu[4], "restart-to-update"@));
        assert(raises(menu[5], "set-default-terminal"@));
    } else {
        assert(raises(menu[4], "set-default-terminal"@));
    }
}

} // verus!
