//! The catalogue of commands: how actions are described, translated and bound.
use crate::commands::{
    Config, ExpandedView, Platform, Translation, Translations, abs_of, bindings_of, command_of,
    default_actions, direction_text, encoding_actions, expansion, expansions, localized, ordinal_of,
    pane_actions, permuted, slug_body, slug_of, tab_actions, translated,
};
use crate::key_assignment::{ActionView, DomainView, PaneDirection, SpawnCommandView, SplitPaneView};
use crate::keys::{ALT, CTRL, KeyCode, SHIFT, SUPER};
use crate::laws::holds;
use crate::laws::lemma_stands_between;
use crate::palette::lemma_expansions_cover;
use crate::text::{decimal, decimal_int, is_alnum, lower_char, lowered};
use vstd::prelude::*;
use vstd::string::*;

verus! {

// ---------------------------------------------------------------------------
// Words
// ---------------------------------------------------------------------------

/// An ordinal is its number and two letters, which the last digit decides; from
/// eleven to thirteen, in any hundred, they are those of ten.
pub proof fn ordinals_follow_the_last_digit(n: int, h: nat)
    ensures
        n >= 0 ==> decimal(n as nat).is_prefix_of(ordinal_of(n)),
        n >= 0 ==> ordinal_of(n).len() == decimal(n as nat).len() + 2,
        n >= 0 && (n % 100 < 11 || n % 100 > 13) ==> ordinal_of(n).skip(
            decimal(n as nat).len() as int,
        ) == ordinal_of(n % 10).skip(1),
        n >= 0 && 11 <= n % 100 <= 13 ==> ordinal_of(n).skip(decimal(n as nat).len() as int)
            == "th"@,
        ordinal_of(1).skip(1) == "st"@,
        ordinal_of(2).skip(1) == "nd"@,
        ordinal_of(3).skip(1) == "rd"@,
        ordinal_of((h % 7 + 4) as int % 10).skip(1) == "th"@,
{
    reveal_strlit("st");
    reveal_strlit("nd");
    reveal_strlit("rd");
    reveal_strlit("th");
    lemma_ordinal(1);
    lemma_ordinal(2);
    lemma_ordinal(3);
    lemma_ordinal((h % 7 + 4) as int % 10);
    if n >= 0 {
        lemma_ordinal(n % 10);
        let d = decimal(n as nat);
        let o = ordinal_of(n);
        assert(decimal_int(n) == d);
        assert(o.subrange(0, d.len() as int) =~= d);
        assert(o.skip(d.len() as int) =~= ending(n));
        assert((n % 10) % 10 == n % 10);
        assert((n % 10) % 100 == n % 10);
    }
}

/// The letters behind the number of an ordinal.
spec fn ending(n: int) -> Seq<char> {
    if n % 10 == 1 && n % 100 != 11 {
        "st"@
    } else if n % 10 == 2 && n % 100 != 12 {
        "nd"@
    } else if n % 10 == 3 && n % 100 != 13 {
        "rd"@
    } else {
        "th"@
    }
}

proof fn lemma_ordinal(d: int)
    requires
        0 <= d < 10,
    ensures
        ordinal_of(d).skip(1) == ending(d),
{
    assert(decimal_int(d).len() == 1);
    assert(ordinal_of(d).skip(1) =~= ending(d));
}

/// The label that the configuration gives to a program is the one that shows,
/// wherever the program is spawned.
pub proof fn given_labels_show(command: SpawnCommandView, split: SplitPaneView, platform: Platform)
    requires
        command.palette_label is Some,
        split.command.palette_label is Some,
    ensures
        command_of(ActionView::SpawnCommandInNewTab(command), platform) matches Some(c) && c.brief
            == command.palette_label->0,
        command_of(ActionView::SpawnCommandInNewWindow(command), platform) matches Some(c)
            && c.brief == command.palette_label->0,
        command_of(ActionView::SplitVertical(command), platform) matches Some(c) && c.brief
            == command.palette_label->0,
        command_of(ActionView::SplitHorizontal(command), platform) matches Some(c) && c.brief
            == command.palette_label->0,
        command_of(ActionView::SplitPane(split), platform) matches Some(c) && c.brief
            == split.command.palette_label->0,
{
}

proof fn lemma_trailing(a: Seq<char>, name: Seq<char>)
    ensures
        holds(a + name, name),
{
    lemma_stands_between(a, name, seq![]);
    assert(a + name + seq![] =~= a + name);
}

/// What an action names, its label and its description name.
pub proof fn descriptions_name_what_they_are_about(name: Seq<char>, platform: Platform)
    ensures
        command_of(ActionView::SpawnTab(DomainView::DomainName(name)), platform) matches Some(c)
            && holds(c.brief, name) && holds(c.doc, name),
        command_of(ActionView::DetachDomain(DomainView::DomainName(name)), platform) matches Some(c)
            && holds(c.brief, name) && holds(c.doc, name),
        command_of(ActionView::AttachDomain(name), platform) matches Some(c) && holds(c.brief, name)
            && holds(c.doc, name),
        command_of(ActionView::SetPaneEncoding(name), platform) matches Some(c) && holds(
            c.brief,
            name,
        ) && holds(c.doc, name),
        command_of(ActionView::SendString(name), platform) matches Some(c) && holds(c.brief, name),
        command_of(ActionView::SendKey(name), platform) matches Some(c) && holds(c.brief, name),
        command_of(
            ActionView::SwitchToWorkspace { name: Some(name), spawn: None },
            platform,
        ) matches Some(c) && holds(c.brief, name) && holds(c.doc, name),
{
    lemma_trailing("New Tab "@, name);
    lemma_stands_between("New tab in "@, name, " domain"@);
    lemma_stands_between("Detach `"@, name, "`"@);
    lemma_stands_between("Disconnect from `"@, name, "` domain"@);
    lemma_stands_between("Attach domain `"@, name, "`"@);
    lemma_trailing("Set Pane Encoding to "@, name);
    lemma_trailing("Sets the current pane encoding to "@, name);
    lemma_stands_between("Sends `"@, name, "` to the active pane, as though you typed it"@);
    lemma_stands_between("Sends "@, name, " to the active pane, as though you typed it"@);
    lemma_stands_between(
        "Switch to workspace `"@,
        name,
        "`, spawn the default program if that workspace doesn't already exist"@,
    );
}

/// An event that belongs to the user's own handlers is not offered; any other
/// that is not one of the built-in ones is offered by its name.
pub proof fn events_are_offered_by_name(name: Seq<char>, rest: Seq<char>, platform: Platform)
    ensures
        command_of(ActionView::EmitEvent("user-defined-"@ + rest), platform) is None,
        command_of(ActionView::EmitEvent(name), platform) is None <==> "user-defined-"@.is_prefix_of(
            name,
        ),
        command_of(ActionView::EmitEvent(name), platform) matches Some(c) ==> (c.keys.len() == 0
            ==> holds(c.brief, name)),
{
    let full = "user-defined-"@ + rest;
    assert(full.subrange(0, "user-defined-"@.len() as int) =~= "user-defined-"@);
    lemma_stands_between("Emit event `"@, name, "`"@);
}

// ---------------------------------------------------------------------------
// Keys
// ---------------------------------------------------------------------------

/// The first eight tabs are under SUPER and their number, the last one under
/// SUPER and nine; no other tab has a key.
pub proof fn tabs_are_under_their_number(n: isize, platform: Platform)
    ensures
        command_of(ActionView::ActivateTab(n), platform) matches Some(c) && {
            &&& 0 <= n <= 7 ==> c.keys.len() == 1 && c.keys[0].0 == SUPER && c.keys[0].1.len() == 1
                && c.keys[0].1[0] as int == '1' as int + n
            &&& n == -1 ==> c.keys == seq![(SUPER, "9"@)]
            &&& n < -1 || n > 7 ==> c.keys.len() == 0
            &&& n >= 0 ==> holds(c.brief, ordinal_of(n + 1)) && holds(c.doc, ordinal_of(n + 1))
        },
{
    lemma_stands_between("Activate "@, ordinal_of(n + 1), " Tab"@);
    lemma_stands_between("Activates the "@, ordinal_of(n + 1), " tab"@);
}

/// Panes are reached, and their dividers moved, by the arrow of the direction.
pub proof fn panes_are_under_the_arrows(d: PaneDirection, amount: usize, platform: Platform)
    requires
        d == PaneDirection::Up || d == PaneDirection::Down || d == PaneDirection::Left || d
            == PaneDirection::Right,
    ensures
        command_of(ActionView::ActivatePaneDirection(d), platform) matches Some(c) && c.keys
            == seq![(SUPER | ALT, direction_text(d) + "Arrow"@)] && direction_text(d).is_suffix_of(
            c.brief,
        ),
        command_of(ActionView::AdjustPaneSize(d, amount), platform) matches Some(c) && c.keys
            == seq![(SUPER | CTRL, direction_text(d) + "Arrow"@)] && direction_text(d).is_suffix_of(
            c.brief,
        ) && holds(c.doc, decimal(amount as nat)),
        d == PaneDirection::Up ==> direction_text(d) == "Up"@,
        d == PaneDirection::Down ==> direction_text(d) == "Down"@,
        d == PaneDirection::Left ==> direction_text(d) == "Left"@,
        d == PaneDirection::Right ==> direction_text(d) == "Right"@,
{
    reveal_strlit("Arrow");
    reveal_strlit("Up");
    reveal_strlit("Down");
    reveal_strlit("Left");
    reveal_strlit("Right");
    reveal_strlit("UpArrow");
    reveal_strlit("DownArrow");
    reveal_strlit("LeftArrow");
    reveal_strlit("RightArrow");
    reveal_strlit("Activate Pane Left");
    reveal_strlit("Activate Pane Right");
    reveal_strlit("Activate Pane Up");
    reveal_strlit("Activate Pane Down");
    reveal_strlit("Resize Split Left");
    reveal_strlit("Resize Split Right");
    reveal_strlit("Resize Split Up");
    reveal_strlit("Resize Split Down");
    let t = direction_text(d);
    let c = command_of(ActionView::ActivatePaneDirection(d), platform)->0;
    let r = command_of(ActionView::AdjustPaneSize(d, amount), platform)->0;
    assert(c.brief.subrange(c.brief.len() - t.len(), c.brief.len() as int) =~= t);
    assert(r.brief.subrange(r.brief.len() - t.len(), r.brief.len() as int) =~= t);
    assert(c.keys[0].1 =~= t + "Arrow"@);
    assert(r.keys[0].1 =~= t + "Arrow"@);
    assert(c.keys =~= seq![(SUPER | ALT, t + "Arrow"@)]);
    assert(r.keys =~= seq![(SUPER | CTRL, t + "Arrow"@)]);
    let n = decimal(amount as nat);
    lemma_stands_between("Move the current split divider left (step: "@, n, " cells)"@);
    lemma_stands_between("Move the current split divider right (step: "@, n, " cells)"@);
    lemma_stands_between("Move the current split divider up (step: "@, n, " cells)"@);
    lemma_stands_between("Move the current split divider down (step: "@, n, " cells)"@);
}

/// What moves by more than one says how far and which way.
pub proof fn moves_say_how_far_and_which_way(n: isize, platform: Platform)
    requires
        n != 1,
        n != -1,
    ensures
        command_of(ActionView::ActivateTabRelative(n), platform) matches Some(c) && c.keys.len()
            == 0 && holds(c.brief, ordinal_of(abs_of(n as int) + 1)) && (if n < 0 {
            "left"@
        } else {
            "right"@
        }).is_suffix_of(c.brief),
        command_of(ActionView::ActivateWindowRelative(n), platform) matches Some(c) && c.keys.len()
            == 0 && holds(c.brief, ordinal_of(abs_of(n as int) + 1)) && (if n < 0 {
            "backwards"@
        } else {
            "forwards"@
        }).is_suffix_of(c.brief),
        command_of(ActionView::MoveTabRelative(n), platform) matches Some(c) && c.keys.len() == 0
            && holds(c.brief, decimal(abs_of(n as int) as nat)) && (if n < 0 {
            "left"@
        } else {
            "right"@
        }).is_suffix_of(c.brief),
{
    let way = if n < 0 {
        "left"@
    } else {
        "right"@
    };
    let turn = if n < 0 {
        "backwards"@
    } else {
        "forwards"@
    };
    let o = ordinal_of(abs_of(n as int) + 1);
    let d = decimal(abs_of(n as int) as nat);
    assert(decimal_int(abs_of(n as int)) == d);
    lemma_framed("Activate the "@, o, " tab to the "@, way);
    lemma_framed("Activate the "@, o, " window "@, turn);
    lemma_framed("Move tab "@, d, " place(s) to the "@, way);
}

proof fn lemma_framed(a: Seq<char>, x: Seq<char>, b: Seq<char>, y: Seq<char>)
    ensures
        holds(a + x + b + y, x),
        y.is_suffix_of(a + x + b + y),
{
    lemma_stands_between(a, x, b + y);
    assert(a + x + (b + y) =~= a + x + b + y);
    let s = a + x + b + y;
    assert(s.subrange(s.len() - y.len(), s.len() as int) =~= y);
}

/// Scrolling by lines says how many and which way.
pub proof fn scrolling_says_how_far_and_which_way(n: isize, platform: Platform)
    ensures
        command_of(ActionView::ScrollByLine(n), platform) matches Some(c) && holds(
            c.brief,
            decimal(abs_of(n as int) as nat),
        ) && (n < 0 ==> holds(c.brief, "up"@)) && (n >= 0 ==> holds(c.brief, "down"@)),
        command_of(ActionView::ScrollToPrompt(n), platform) matches Some(c) && holds(
            c.brief,
            decimal(abs_of(n as int) as nat),
        ) && (n < 0 ==> holds(c.brief, "up"@)) && (n >= 0 ==> holds(c.brief, "down"@)),
{
    let d = decimal(abs_of(n as int) as nat);
    let way = if n < 0 {
        "up"@
    } else {
        "down"@
    };
    assert(decimal_int(abs_of(n as int)) == d);
    lemma_stands_between("Scroll "@ + way + " "@, d, " line(s)"@);
    lemma_stands_between("Scroll "@ + way + " "@, d, " prompt(s)"@);
    lemma_stands_between("Scroll "@, way, " "@ + d + " line(s)"@);
    lemma_stands_between("Scroll "@, way, " "@ + d + " prompt(s)"@);
    assert("Scroll "@ + way + (" "@ + d + " line(s)"@) =~= "Scroll "@ + way + " "@ + d
        + " line(s)"@);
    assert("Scroll "@ + way + (" "@ + d + " prompt(s)"@) =~= "Scroll "@ + way + " "@ + d
        + " prompt(s)"@);
}

/// The previous and the next tab are under the two brackets, and moving a tab
/// back and forth under the two keys for pages.
pub proof fn tabs_go_both_ways(platform: Platform)
    ensures
        command_of(ActionView::ActivateTabRelative(-1 as isize), platform) matches Some(c)
            && c.keys.contains((SUPER | SHIFT, "["@)),
        command_of(ActionView::ActivateTabRelative(1), platform) matches Some(c)
            && c.keys.contains((SUPER | SHIFT, "]"@)),
        command_of(ActionView::MoveTabRelative(-1 as isize), platform) matches Some(c) && c.keys
            == seq![(CTRL | SHIFT, "PageUp"@)],
        command_of(ActionView::MoveTabRelative(1), platform) matches Some(c) && c.keys
            == seq![(CTRL | SHIFT, "PageDown"@)],
{
    let back = command_of(ActionView::ActivateTabRelative(-1 as isize), platform)->0;
    let next = command_of(ActionView::ActivateTabRelative(1), platform)->0;
    assert(back.keys[0] == (SUPER | SHIFT, "["@));
    assert(next.keys[0] == (SUPER | SHIFT, "]"@));
}

/// Closing a pane is under SUPER and W, closing the tab takes SHIFT as well; what
/// closes without asking has no key and stands in no menu.
pub proof fn closing_unasked_has_no_key(confirm: bool, platform: Platform)
    ensures
        command_of(ActionView::CloseCurrentPane { confirm }, platform) matches Some(c)
            && c.keys.contains((SUPER, "w"@)) == confirm && (c.keys.len() > 0) == confirm
            && (c.menubar.len() > 0) == confirm,
        command_of(ActionView::CloseCurrentTab { confirm }, platform) matches Some(c)
            && c.keys.contains((SUPER | SHIFT, "w"@)) == confirm && (c.keys.len() > 0) == confirm
            && (c.menubar.len() > 0) == confirm,
{
    let pane = command_of(ActionView::CloseCurrentPane { confirm }, platform)->0;
    let tab = command_of(ActionView::CloseCurrentTab { confirm }, platform)->0;
    if confirm {
        assert(pane.keys[0] == (SUPER, "w"@));
        assert(tab.keys[0] == (SUPER | SHIFT, "w"@));
    }
}

/// Whether some command of the list has the chord and the action.
pub open spec fn carries_chord(
    commands: Seq<ExpandedView>,
    m: u16,
    k: KeyCode,
    action: ActionView,
) -> bool {
    exists|i: int|
        0 <= i < commands.len() && (#[trigger] commands[i]).action == action
            && commands[i].keys.contains((m, k))
}

/// The default bindings are the chords of the commands, each with the action of
/// its command.
pub proof fn bindings_are_the_chords_of_commands(
    commands: Seq<ExpandedView>,
    m: u16,
    k: KeyCode,
    action: ActionView,
)
    ensures
        bindings_of(commands).contains((m, k, action)) <==> carries_chord(commands, m, k, action),
    decreases commands.len(),
{
    if commands.len() > 0 {
        let rest = commands.drop_last();
        let last = commands.last();
        bindings_are_the_chords_of_commands(rest, m, k, action);
        let before = bindings_of(rest);
        let own = last.keys.map_values(|c: (u16, KeyCode)| (c.0, c.1, last.action));
        let all = bindings_of(commands);
        let wanted = (m, k, action);
        assert(all == before + own);
        if before.contains(wanted) {
            let i = choose|i: int| 0 <= i < before.len() && before[i] == wanted;
            assert(all[i] == wanted);
            let j = choose|j: int|
                0 <= j < rest.len() && (#[trigger] rest[j]).action == action
                    && rest[j].keys.contains((m, k));
            assert(commands[j] == rest[j]);
        } else if last.action == action && last.keys.contains((m, k)) {
            let i = choose|i: int| 0 <= i < last.keys.len() && last.keys[i] == (m, k);
            assert(all[before.len() + i] == wanted);
            assert(commands[commands.len() - 1] == last);
        } else {
            if all.contains(wanted) {
                let i = choose|i: int| 0 <= i < all.len() && all[i] == wanted;
                if i < before.len() {
                    assert(before[i] == wanted);
                } else {
                    assert(last.keys[i - before.len()] == (m, k));
                }
            }
            assert forall|j: int|
                0 <= j < commands.len() && (#[trigger] commands[j]).action == action
                    && commands[j].keys.contains((m, k)) implies false by {
                if j < rest.len() {
                    assert(rest[j] == commands[j]);
                }
            }
        }
    }
}

/// Every action that has a command is expanded, with its own action, under the
/// chords of the catalogue; where the default bindings are disabled the built-in
/// ones have no chord.
pub proof fn described_actions_are_expanded(actions: Seq<ActionView>, config: Config, i: int)
    requires
        0 <= i < actions.len(),
        command_of(actions[i], config.platform) is Some,
    ensures
        exists|k: int|
            0 <= k < expansions(actions, config).len() && (#[trigger] expansions(
                actions,
                config,
            )[k]).action == actions[i] && expansions(actions, config)[k].keys == (
            if config.disable_default_key_bindings {
                seq![]
            } else {
                permuted(command_of(actions[i], config.platform)->0.keys, config.key_table)
            }) && expansions(actions, config)[k].menubar == command_of(
                actions[i],
                config.platform,
            )->0.menubar,
        expansions(actions, config).len() <= actions.len(),
        expansion(actions[i], config, false)->0.keys == permuted(
            command_of(actions[i], config.platform)->0.keys,
            config.key_table,
        ),
{
    lemma_expansions_cover(actions, config, i);
    let all = expansions(actions, config);
    let k = choose|k: int|
        0 <= k < all.len() && #[trigger] all[k] == expansion(actions[i], config, true)->0;
    assert(all[k].action == actions[i]);
    lemma_no_more(actions, config);
}

proof fn lemma_no_more(actions: Seq<ActionView>, config: Config)
    ensures
        expansions(actions, config).len() <= actions.len(),
    decreases actions.len(),
{
    if actions.len() > 0 {
        lemma_no_more(actions.drop_last(), config);
    }
}

/// The default actions hold one for each encoding, and the tabs by number.
pub proof fn defaults_hold_encodings_and_tabs(
    platform: Platform,
    encodings: Seq<Seq<char>>,
    i: int,
    n: isize,
)
    requires
        -1 <= n <= 7,
    ensures
        0 <= i < encodings.len() ==> default_actions(platform, encodings).contains(
            ActionView::SetPaneEncoding(encodings[i]),
        ),
        default_actions(platform, encodings).contains(ActionView::ActivateTab(n)),
{
    let all = default_actions(platform, encodings);
    let last = encoding_actions(encodings);
    let at = all.len() - last.len();
    if 0 <= i < encodings.len() {
        assert(all[at + i] == ActionView::SetPaneEncoding(encodings[i]));
    }
    let panes = pane_actions();
    let tabs = tab_actions();
    let k: int = if n == -1 {
        8
    } else {
        n as int
    };
    assert(tabs[k] == ActionView::ActivateTab(n));
    assert(all[at - panes.len() - tabs.len() + k] == tabs[k]);
}

// ---------------------------------------------------------------------------
// Translations
// ---------------------------------------------------------------------------

/// The letters and digits of a text, without anything else.
pub open spec fn letters(s: Seq<char>) -> Seq<char>
    decreases s.len(),
{
    if s.len() == 0 {
        s
    } else if is_alnum(s.last()) {
        letters(s.drop_last()).push(s.last())
    } else {
        letters(s.drop_last())
    }
}

proof fn lemma_letters_of_slug(s: Seq<char>)
    ensures
        letters(slug_body(s)) == letters(lowered(s)),
    decreases s.len(),
{
    if s.len() > 0 {
        let rest = s.drop_last();
        lemma_letters_of_slug(rest);
        assert(lowered(s).drop_last() =~= lowered(rest));
        let c = lower_char(s.last());
        assert(lowered(s).last() == c);
        let before = slug_body(rest);
        assert(before.push(c).drop_last() =~= before);
        assert(before.push('_').drop_last() =~= before);
    } else {
        assert(lowered(s) =~= s);
    }
}

/// A slug keeps every letter and digit of its label, in order and in lower case.
pub proof fn slugs_keep_letters_and_digits(s: Seq<char>)
    ensures
        letters(slug_of(s)) == letters(lowered(s)),
{
    lemma_letters_of_slug(s);
    let body = slug_body(s);
    if body.len() > 0 && body.last() == '_' {
        assert(letters(body) == letters(body.drop_last()));
    }
}

proof fn lemma_word(s: Seq<char>)
    requires
        forall|k: int| 0 <= k < s.len() ==> is_alnum(#[trigger] s[k]),
    ensures
        slug_body(s) == lowered(s),
    decreases s.len(),
{
    if s.len() > 0 {
        lemma_word(s.drop_last());
        assert(is_alnum(s[s.len() - 1]));
        assert(lowered(s) =~= lowered(s.drop_last()).push(lower_char(s.last())));
    } else {
        assert(slug_body(s) =~= lowered(s));
    }
}

proof fn lemma_joined_body(a: Seq<char>, c: char, b: Seq<char>)
    requires
        !is_alnum(c),
        slug_body(a).len() > 0,
        slug_body(b).len() > 0,
    ensures
        slug_body(a + seq![c] + b) == slug_of(a) + seq!['_'] + slug_body(b),
    decreases b.len(),
{
    let s = a + seq![c] + b;
    let rest = b.drop_last();
    assert(s.drop_last() =~= a + seq![c] + rest);
    assert(s.last() == b.last());
    let d = lower_char(b.last());
    if slug_body(rest).len() > 0 {
        lemma_joined_body(a, c, rest);
        let before = slug_of(a) + seq!['_'] + slug_body(rest);
        assert(before.last() == slug_body(rest).last());
        assert(slug_body(s) =~= slug_of(a) + seq!['_'] + slug_body(b));
    } else {
        lemma_gap(a, c, rest);
        assert(slug_body(s) =~= slug_of(a) + seq!['_'] + slug_body(b));
    }
}

proof fn lemma_gap(a: Seq<char>, c: char, b: Seq<char>)
    requires
        !is_alnum(c),
        slug_body(a).len() > 0,
        slug_body(b).len() == 0,
    ensures
        slug_body(a + seq![c] + b) == slug_of(a) + seq!['_'],
    decreases b.len(),
{
    let s = a + seq![c] + b;
    if b.len() == 0 {
        assert(s.drop_last() =~= a);
        assert(s.last() == c);
        assert(slug_body(s) =~= slug_of(a) + seq!['_']);
    } else {
        let rest = b.drop_last();
        assert(s.drop_last() =~= a + seq![c] + rest);
        assert(s.last() == b.last());
        lemma_gap(a, c, rest);
        assert(slug_body(s) =~= slug_of(a) + seq!['_']);
    }
}

/// The slug of a word is the word in lower case; words that something else parts
/// are joined by one underscore.
pub proof fn slugs_join_words(a: Seq<char>, c: char, b: Seq<char>, word: Seq<char>)
    requires
        !is_alnum(c),
        slug_of(a).len() > 0,
        slug_of(b).len() > 0,
        forall|k: int| 0 <= k < word.len() ==> is_alnum(#[trigger] word[k]),
    ensures
        slug_of(a + seq![c] + b) == slug_of(a) + seq!['_'] + slug_of(b),
        slug_of(word) == lowered(word),
{
    lemma_joined_body(a, c, b);
    let body = slug_body(b);
    let all = slug_body(a + seq![c] + b);
    assert(all.last() == body.last());
    if body.last() == '_' {
        assert(all.drop_last() =~= slug_of(a) + seq!['_'] + body.drop_last());
    }
    lemma_word(word);
    if word.len() > 0 {
        assert(is_alnum(word[word.len() - 1]));
        assert(lowered(word).last() == lower_char(word.last()));
    }
}

proof fn lemma_translated(entries: Seq<Translation>, key: Seq<char>, i: int)
    ensures
        0 <= i < entries.len() && entries[i].key@ == key && (forall|k: int|
            0 <= k < i ==> (#[trigger] entries[k]).key@ != key) ==> translated(entries, key)
            == entries[i].text@,
        (forall|k: int| 0 <= k < entries.len() ==> (#[trigger] entries[k]).key@ != key)
            ==> translated(entries, key) == key,
    decreases entries.len(),
{
    if entries.len() > 0 {
        let rest = entries.drop_first();
        lemma_translated(rest, key, i - 1);
        assert(forall|k: int| 0 <= k < rest.len() ==> #[trigger] rest[k] == entries[k + 1]);
    }
}

/// A label shows as its translation, found under its slug; without one it shows
/// as it is.
pub proof fn labels_show_their_translation(
    prefix: Seq<char>,
    label: Seq<char>,
    t: Translations,
    i: int,
)
    requires
        slug_of(label).len() > 0,
    ensures
        0 <= i < t.entries@.len() && t.entries@[i].key@ == prefix + slug_of(label)
            && t.entries@[i].text@ != prefix + slug_of(label) && (forall|k: int|
            0 <= k < i ==> (#[trigger] t.entries@[k]).key@ != prefix + slug_of(label))
            ==> localized(prefix, label, t) == t.entries@[i].text@,
        (forall|k: int|
            0 <= k < t.entries@.len() ==> (#[trigger] t.entries@[k]).key@ != prefix + slug_of(
                label,
            )) ==> localized(prefix, label, t) == label,
{
    lemma_translated(t.entries@, prefix + slug_of(label), i);
}

} // verus!
