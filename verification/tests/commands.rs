use kaku::commands::{
    compute_default_actions, derive_command_from_key_assignment, english_ordinal,
    localize_command_field, slugify_command_label, us_layout_shift, CommandDef, Config, KeyBinding,
    Platform, Translation, Translations,
};
use kaku::key_assignment::{KeyAssignment, SpawnTabDomain};
use kaku::keys::{contains_mods, KeyCode, KeyName, KeyTable, ALT, CTRL, SHIFT, SUPER};
use kaku::menubar::{
    application_menu_items, command_rank_for_menu, separator_group_for_menu, stale_menu_items,
    ApplicationItem, Domain, MenuSlot, MuxState,
};
use kaku::order::{sort_order, SortKey};
use kaku::palette::{palette_core_actions, InputMap};

fn key_table() -> KeyTable {
    let names = [
        "Insert", "Copy", "Paste", "UpArrow", "DownArrow", "LeftArrow", "RightArrow", "Space",
        "Tab", "PageUp", "PageDown", "Home", "End", "Enter",
    ];
    KeyTable {
        names: names
            .iter()
            .enumerate()
            .map(|(i, label)| KeyName {
                label: label.to_string(),
                code: KeyCode {
                    order: 0x200_0000 + i as u64,
                    glyph: None,
                },
            })
            .collect(),
    }
}

fn config() -> Config {
    Config {
        platform: Platform::MacOs,
        disable_default_key_bindings: false,
        keys: vec![],
        launch_menu: vec![],
        pane_encodings: vec!["UTF-8".to_string(), "GBK".to_string()],
        key_table: key_table(),
        translations: Translations { entries: vec![] },
    }
}

fn input_map(config: &Config) -> InputMap {
    InputMap {
        default: CommandDef::default_key_assignments(config)
            .into_iter()
            .map(|(mods, key, action)| KeyBinding { mods, key, action })
            .collect(),
        named: vec![],
        app_wide: vec![],
    }
}

fn command(action: &KeyAssignment) -> CommandDef {
    derive_command_from_key_assignment(action, Platform::MacOs).expect("command")
}

#[test]
fn deprecated_input_broadcast_actions_are_not_exposed() {
    let config = config();
    let deprecated_actions = [
        KeyAssignment::ToggleCurrentTabPanesInputBroadcast,
        KeyAssignment::ToggleAllPanesInputBroadcast,
    ];

    for action in &deprecated_actions {
        assert!(derive_command_from_key_assignment(action, Platform::MacOs).is_none());
        assert!(!CommandDef::default_key_assignments(&config)
            .iter()
            .any(|(_, _, default_action)| default_action.same_as(action)));
    }

    assert!(CommandDef::actions_for_palette_only(&config, &input_map(&config))
        .iter()
        .all(|command| !matches!(
            command.action,
            KeyAssignment::ToggleCurrentTabPanesInputBroadcast
                | KeyAssignment::ToggleAllPanesInputBroadcast
        )));
}

#[test]
fn move_tab_to_new_window_has_no_default_shortcut() {
    let cmd = command(&KeyAssignment::MoveTabToNewWindow);

    assert_eq!(cmd.brief, "Move Tab to New Window");
    assert_eq!(cmd.menubar, vec!["Window"]);
    // A Cmd/Ctrl+letter keyEquivalent here would be intercepted by AppKit
    // before raw-mode TUIs ever see the chord, so this stays menu-only.
    assert!(cmd.keys.is_empty());
}

#[test]
fn move_tab_to_new_window_is_reachable_from_palette_and_menubar() {
    let config = config();
    let map = input_map(&config);

    assert!(CommandDef::actions_for_palette_only(&config, &map)
        .iter()
        .any(|cmd| cmd.action.same_as(&KeyAssignment::MoveTabToNewWindow)));
    assert!(CommandDef::actions_for_palette_and_menubar(&config, &map, None)
        .iter()
        .any(|cmd| cmd.action.same_as(&KeyAssignment::MoveTabToNewWindow)
            && !cmd.menubar.is_empty()));
}

#[test]
fn restore_previous_window_has_default_shortcut() {
    let cmd = command(&KeyAssignment::RestorePreviousWindow);

    assert_eq!(cmd.brief, "Restore Previous Window");
    assert_eq!(cmd.keys, vec![(SUPER | ALT | SHIFT, "t".to_string())]);
    assert_eq!(cmd.menubar, vec!["Shell"]);
}

#[test]
fn restore_previous_window_is_in_command_palette() {
    let config = config();

    assert!(CommandDef::actions_for_palette_only(&config, &input_map(&config))
        .iter()
        .any(|cmd| cmd.action.same_as(&KeyAssignment::RestorePreviousWindow)));
}

#[test]
fn every_default_action_is_described() {
    for platform in [Platform::MacOs, Platform::Other] {
        for action in compute_default_actions(platform, &vec!["UTF-8".to_string()]) {
            assert!(derive_command_from_key_assignment(&action, platform).is_some());
        }
    }
}

#[test]
fn palette_is_sorted_and_free_of_repeats() {
    let config = config();
    let items = CommandDef::actions_for_palette_only(&config, &input_map(&config));
    assert!(items.len() > palette_core_actions().len() / 2);
    for i in 0..items.len() {
        for j in i + 1..items.len() {
            assert!(!items[i].action.same_as(&items[j].action));
        }
    }
}

#[test]
fn default_bindings_can_be_switched_off() {
    let mut config = config();
    assert!(!CommandDef::default_key_assignments(&config).is_empty());
    config.disable_default_key_bindings = true;
    let commands = CommandDef::expanded_commands(&config);
    assert!(commands.iter().all(|c| c.keys.is_empty()));
}

#[test]
fn ordinals_are_english() {
    let words: Vec<String> = [1, 2, 3, 4, 11, 12, 13, 21, 22, 103]
        .iter()
        .map(|n| english_ordinal(*n))
        .collect();
    assert_eq!(
        words,
        vec!["1st", "2nd", "3rd", "4th", "11th", "12th", "13th", "21st", "22nd", "103rd"]
    );
}

#[test]
fn labels_become_slugs_and_are_translated() {
    assert_eq!(slugify_command_label("Copy to Clipboard"), "copy_to_clipboard");
    assert_eq!(slugify_command_label("  A -- b! "), "a_b");
    let none = Translations { entries: vec![] };
    assert_eq!(localize_command_field("brief", "Copy", &none), "Copy");
    let t = Translations {
        entries: vec![Translation {
            key: "commands.brief.copy".to_string(),
            text: "复制".to_string(),
        }],
    };
    let shown = localize_command_field("brief", "Copy", &t);
    assert!(shown == "复制" || shown == "Copy");
}

#[test]
fn shifted_keys_follow_the_us_layout() {
    assert_eq!(us_layout_shift("1"), "!");
    assert_eq!(us_layout_shift("a"), "A");
    assert_eq!(us_layout_shift("Home"), "Home");
    assert!(contains_mods(SUPER | SHIFT, SHIFT));
    assert!(!contains_mods(SUPER, CTRL));
}

#[test]
fn single_characters_are_bound_in_lowercase() {
    let reload = command(&KeyAssignment::ReloadConfiguration);
    assert_eq!(reload.keys, vec![(SUPER | SHIFT, "r".to_string())]);
    assert_eq!(reload.permute_keys(&key_table()).len(), 3);
    for action in compute_default_actions(Platform::MacOs, &vec![]) {
        for (_, label) in &command(&action).keys {
            assert!(label.len() != 1 || !label.as_bytes()[0].is_ascii_uppercase(), "{label}");
        }
    }
}

#[test]
fn descriptions_name_their_argument() {
    let cmd = command(&KeyAssignment::ActivateTab(2));
    assert!(cmd.brief.contains("3rd"));
    let cmd = command(&KeyAssignment::SpawnTab(SpawnTabDomain::DomainName("ssh \"x\"".to_string())));
    assert!(cmd.brief.contains("ssh"));
    assert!(cmd.doc.contains("ssh"));
}

#[test]
fn the_menubar_holds_domains_and_workspaces() {
    let config = config();
    let map = input_map(&config);
    let mux = MuxState {
        domains: vec![Domain {
            id: 1,
            name: "server".to_string(),
            spawnable: true,
            attached: false,
        }],
        active_workspace: "default".to_string(),
        workspaces: vec!["default".to_string(), "work".to_string()],
    };
    let with = CommandDef::actions_for_palette_and_menubar(&config, &map, Some(&mux)).len();
    let without = CommandDef::actions_for_palette_and_menubar(&config, &map, None).len();
    assert!(with > without);
    let plan = CommandDef::recreate_menubar(&config, &map, None);
    assert!(plan.iter().any(|item| item.path == vec!["Shell".to_string()]));
    assert!(plan.iter().all(|item| !item.title.is_empty()));
    for shown in CommandDef::actions_for_palette_and_menubar(&config, &map, None) {
        if !shown.menubar.is_empty() {
            assert!(plan
                .iter()
                .any(|item| item.title == shown.brief && item.path == shown.menubar));
        }
    }
}

#[test]
fn menu_items_are_grouped_by_rank() {
    let low = command_rank_for_menu("Shell", &KeyAssignment::SpawnWindow);
    let high = command_rank_for_menu("Shell", &KeyAssignment::Nop);
    assert!(low < high);
    assert!(separator_group_for_menu("Shell", low) <= separator_group_for_menu("Shell", high));
    let items = application_menu_items("1.0", Some("1.1"), Some(false), &Translations { entries: vec![] });
    assert!(items.iter().any(|i| matches!(i, ApplicationItem::Settings { .. })));
    let stale = stale_menu_items(
        &vec![MenuSlot {
            path: vec!["Nowhere".to_string()],
            action: KeyAssignment::Nop,
        }],
        &vec![],
    );
    assert_eq!(stale, vec![0]);
}

#[test]
fn sorting_is_stable() {
    let key = |major: u64, text: &str| SortKey {
        major,
        minor: 0,
        text: text.to_string(),
    };
    let order = sort_order(&vec![key(2, "a"), key(1, "b"), key(1, "a"), key(1, "b")]);
    assert_eq!(order, vec![2, 1, 3, 0]);
}
