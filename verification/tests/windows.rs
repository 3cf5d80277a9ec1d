use kaku::app_events::{
    activate_tab_for_tty, app_event_handler, needs_config_reload, pane_to_focus,
    perform_without_window, route_notification, spawn_open_command_script, ApplicationEvent,
    ClipboardSelection, EventFacts, EventStep, FrontEndAction, MuxFacts, MuxNotification,
    NotificationHandling, PanePlace, PaneTty, PerformStep, TabPanes, SET_DEFAULT_TERMINAL_EVENT,
};
use kaku::commands::{Platform, Translations};
use kaku::confirm::{
    confirm_apply_update, confirm_close_pane, confirm_close_tab, confirm_close_window,
    confirm_quit_program, ConfirmStep, Question,
};
use kaku::frontend::{
    spawn_failure_hint, GuiFrontEnd, KnownWindow, WorkspaceChoice, WorkspaceFacts,
    WorkspaceSwitcher,
};
use kaku::key_assignment::{KeyAssignment, SpawnTabDomain};
use kaku::updates::{
    apply_update_now, check_for_updates_from_menu, confirm_and_apply_update, helper_script_name,
    kaku_candidates, kaku_cli_program_for_spawn, kaku_cli_shell_invocation, open_kaku_config,
    resolve_bundled_kaku_bin, restart_to_update, run_kaku_doctor_in_new_tab,
    run_kaku_subcommand_in_new_tab, run_kaku_update_from_menu, set_default_terminal_with_feedback,
    shell_quote_program, DefaultTerminal, Feedback, RestartStage, RestartStep, SingletonStep,
    SingletonWindows, SpawnWhere, UpdateGuard, UpdateStep,
};

fn known(list: &[(u64, u64)]) -> GuiFrontEnd {
    let mut fe = GuiFrontEnd::new();
    for (window, mux_window) in list {
        fe.record_known_window(*window, *mux_window);
    }
    fe
}

fn pairs(list: &Vec<KnownWindow>) -> Vec<(u64, u64)> {
    list.iter().map(|k| (k.window, k.mux_window)).collect()
}

fn facts() -> MuxFacts {
    MuxFacts {
        active_workspace: "default".to_string(),
        pane: Some(PanePlace { window: 1, tab: 2, pane: 3 }),
        focused: Some(PanePlace { window: 1, tab: 2, pane: 4 }),
        handling: NotificationHandling::SuppressFromFocusedPane,
        platform: Platform::Other,
        quit_when_all_windows_are_closed: true,
        allow_download_protocols: false,
    }
}

#[test]
fn windows_stand_in_order() {
    let mut fe = known(&[(5, 50), (1, 10), (3, 30)]);
    assert_eq!(pairs(fe.gui_windows()), vec![(1, 10), (3, 30), (5, 50)]);
    assert!(fe.record_known_window(3, 31));
    assert!(fe.forget_known_window(1));
    assert_eq!(pairs(fe.gui_windows()), vec![(3, 31), (5, 50)]);
    assert_eq!(fe.gui_window_for_mux_window(50).map(|k| k.window), Some(5));
    assert!(fe.gui_window_for_mux_window(10).is_none());
    assert_eq!(fe.focused_mux_window_id(None), Some(31));
    assert_eq!(fe.focused_mux_window_id(Some(9)), Some(9));
    assert!(fe.has_mux_window(31));
}

#[test]
fn windows_are_reconciled_with_the_workspace() {
    let mut fe = known(&[(1, 10), (2, 20), (3, 30)]);
    let plan = fe.reconcile_workspace(vec![20, 40]);
    assert_eq!(pairs(&plan.switched), vec![(1, 40)]);
    assert_eq!(pairs(&plan.closed), vec![(3, 30)]);
    assert!(plan.remaining.is_empty());
    assert_eq!(pairs(fe.gui_windows()), vec![(1, 40), (2, 20)]);

    let mut fe = known(&[(1, 10)]);
    let plan = fe.reconcile_workspace(vec![10, 11, 12]);
    assert_eq!(plan.remaining, vec![11, 12]);
    assert!(fe.claim_spawn(11));
    assert!(!fe.claim_spawn(11));
    assert!(!fe.claim_spawn(10));
    fe.spawn_failed(11);
    assert!(fe.claim_spawn(11));
}

#[test]
fn empty_workspaces_give_way() {
    let mut fe = GuiFrontEnd::new();
    let list = vec![
        WorkspaceFacts { name: "a".to_string(), is_empty: true },
        WorkspaceFacts { name: "b".to_string(), is_empty: false },
    ];
    assert!(matches!(fe.choose_workspace(false, &list), WorkspaceChoice::Stay));
    match fe.choose_workspace(true, &list) {
        WorkspaceChoice::Activate(name) => assert_eq!(name, "b"),
        _ => panic!("expected another workspace"),
    }
    let switcher = WorkspaceSwitcher::new(&mut fe, "work");
    assert!(fe.is_switching_workspace());
    assert!(matches!(fe.choose_workspace(true, &list), WorkspaceChoice::Wait));
    assert!(!fe.record_known_window(1, 1));
    assert_eq!(switcher.do_switch(&mut fe), "work");
    assert!(!fe.is_switching_workspace());
}

#[test]
fn bells_are_counted() {
    let mut fe = GuiFrontEnd::new();
    assert_eq!(fe.adjust_unread_bell_count(3, true), Some("3".to_string()));
    assert_eq!(fe.adjust_unread_bell_count(-1, false), None);
    assert_eq!(fe.sync_unread_bell_badge(true), Some("2".to_string()));
    assert_eq!(fe.adjust_unread_bell_count(-9, true), None);
    assert!(spawn_failure_hint("x: failed to create NSOpenGLPixelFormat").is_some());
    assert!(spawn_failure_hint("other").is_none());
}

#[test]
fn notifications_are_routed() {
    let route = |n: MuxNotification| route_notification(&n, &facts());
    let actions = route(MuxNotification::WindowRemoved(7));
    assert!(matches!(actions[0], FrontEndAction::ForgetLogicallyClosed(7)));
    assert!(matches!(actions[1], FrontEndAction::MarkDirty));
    assert!(matches!(actions[2], FrontEndAction::Reconcile));
    assert!(route(MuxNotification::PaneOutput).is_empty());
    assert_eq!(route(MuxNotification::PaneAdded).len(), 1);
    let renamed = |old: &str, new: &str| MuxNotification::WorkspaceRenamed {
        old_workspace: old.to_string(),
        new_workspace: new.to_string(),
    };
    assert_eq!(route(renamed("default", "x")).len(), 1);
    assert!(route(renamed("y", "x")).is_empty());
    assert!(matches!(route(MuxNotification::Empty)[0], FrontEndAction::QuitWhenIdle));
    assert!(matches!(
        route(MuxNotification::SaveToDownloads)[0],
        FrontEndAction::RefuseDownload
    ));
    match &route(MuxNotification::AssignClipboard {
        selection: ClipboardSelection::Clipboard,
        text: None,
    })[0]
    {
        FrontEndAction::SetClipboard { text, .. } => assert_eq!(text, ""),
        _ => panic!("expected the clipboard"),
    }
    assert!(needs_config_reload(true, false));
    assert!(!needs_config_reload(true, true));
}

#[test]
fn toasts_follow_the_focus() {
    let toast = MuxNotification::Toast {
        pane_id: 3,
        title: None,
        body: "done".to_string(),
    };
    match &route_notification(&toast, &facts())[0] {
        FrontEndAction::ShowToast { title, message } => {
            assert_eq!(title, "done");
            assert_eq!(message, "");
        }
        _ => panic!("expected a toast"),
    }
    let mut same_tab = facts();
    same_tab.handling = NotificationHandling::SuppressFromFocusedTab;
    assert!(route_notification(&toast, &same_tab).is_empty());
    let mut never = facts();
    never.handling = NotificationHandling::NeverShow;
    assert!(route_notification(&toast, &never).is_empty());
}

#[test]
fn scripts_are_typed_into_a_shell() {
    let plan = spawn_open_command_script("/tmp/my script.sh", false, true, &vec![1, 2]).unwrap();
    assert_eq!(plan.window, Some(2));
    assert_eq!(plan.cwd, None);
    assert_eq!(plan.input.as_deref(), Some("'/tmp/my script.sh' ; exit\n"));
    let dir = spawn_open_command_script("/tmp", true, false, &vec![1]).unwrap();
    assert_eq!(dir.window, None);
    assert_eq!(dir.cwd.as_deref(), Some("/tmp"));
    assert!(dir.input.is_none());
    assert!(spawn_open_command_script("a\0b", false, false, &vec![]).is_none());
}

#[test]
fn panes_are_found_by_their_device() {
    let panes = vec![
        PaneTty { pane_id: 1, tty: None },
        PaneTty { pane_id: 2, tty: Some("/dev/ttys004".to_string()) },
    ];
    for name in ["/dev/ttys004", "ttys004", " ttys004\n", "/other/ttys004"] {
        assert_eq!(activate_tab_for_tty(name, &panes), Some(2));
    }
    assert_eq!(activate_tab_for_tty("ttys005", &panes), None);
    assert_eq!(activate_tab_for_tty("  ", &panes), None);
    assert_eq!(pane_to_focus(None, &vec![8, 9]), Some(8));
    assert_eq!(pane_to_focus(Some(9), &vec![8, 9]), Some(9));
}

#[test]
fn user_facing_update_events_route_through_confirm() {
    let event = |name: &str| perform_without_window(&KeyAssignment::EmitEvent(name.to_string()));
    assert!(matches!(event("run-kaku-update"), PerformStep::CheckForUpdates));
    assert!(matches!(event("update-kaku"), PerformStep::CheckForUpdates));
    assert!(matches!(event("restart-to-update"), PerformStep::ConfirmUpdate));
    assert_eq!(check_for_updates_from_menu(true, true), UpdateStep::ShowConfirmation);
    assert_eq!(confirm_and_apply_update(true), UpdateStep::ShowConfirmation);
    assert_eq!(confirm_and_apply_update(false), UpdateStep::ApplyNow);
    assert_eq!(
        check_for_updates_from_menu(false, true),
        UpdateStep::RunInTab { auto_confirm: false }
    );
    assert_eq!(run_kaku_update_from_menu(), UpdateStep::RunInTab { auto_confirm: false });
    assert_eq!(apply_update_now(true), UpdateStep::RestartToUpdate);
    assert_eq!(apply_update_now(false), UpdateStep::RunInTab { auto_confirm: true });
    let asked = run_kaku_subcommand_in_new_tab("kaku", Some("/bin/zsh"), "update", false);
    assert!(!asked.args.unwrap()[2].contains("AUTO_CONFIRM"));
    let agreed = run_kaku_subcommand_in_new_tab("kaku", Some("/bin/zsh"), "update", true);
    assert!(agreed.args.unwrap()[2].starts_with("KAKU_UPDATE_AUTO_CONFIRM=1 kaku update"));
}

#[test]
fn actions_without_a_window_are_performed() {
    assert!(matches!(
        perform_without_window(&KeyAssignment::EmitEvent(SET_DEFAULT_TERMINAL_EVENT.to_string())),
        PerformStep::SetDefaultTerminal
    ));
    assert!(matches!(
        perform_without_window(&KeyAssignment::ReloadConfiguration),
        PerformStep::Nothing
    ));
    assert!(matches!(
        perform_without_window(&KeyAssignment::QuitApplication),
        PerformStep::Quit
    ));
    match perform_without_window(&KeyAssignment::SpawnTab(SpawnTabDomain::DefaultDomain)) {
        PerformStep::Spawn { command, place } => {
            assert_eq!(place, SpawnWhere::NewWindow);
            assert_eq!(command.domain, SpawnTabDomain::DefaultDomain);
        }
        _ => panic!("expected a spawn"),
    }
    assert!(matches!(
        perform_without_window(&KeyAssignment::ShowDebugOverlay),
        PerformStep::Forward
    ));
}

#[test]
fn shell_program_with_spaces_round_trips_as_one_token() {
    let program = "/Applications/Kaku Nightly.app/Contents/MacOS/kaku";
    let quoted = shell_quote_program(program);
    assert_ne!(quoted, program);
    assert_eq!(shlex::split(&quoted), Some(vec![program.to_string()]));
    assert_eq!(kaku_cli_shell_invocation(&Ok(program.to_string())), quoted);
}

#[test]
fn the_program_is_looked_for_in_order() {
    let list = kaku_candidates(
        Some("/opt//kaku"),
        Some("/opt"),
        Some("/real/bin"),
        "/home/ada",
        Platform::MacOs,
    );
    assert_eq!(
        list,
        vec![
            "/opt//kaku",
            "/real/bin/kaku",
            "/home/ada/.config/kaku/zsh/bin/kaku",
            "/Applications/Kaku.app/Contents/MacOS/kaku",
            "/home/ada/Applications/Kaku.app/Contents/MacOS/kaku",
        ]
    );
    let found = resolve_bundled_kaku_bin(&list, &vec![false, true, true, false, false]);
    assert_eq!(found, Ok("/real/bin/kaku".to_string()));
    let missing = resolve_bundled_kaku_bin(&vec!["a".to_string(), "b".to_string()], &vec![false, false]);
    assert_eq!(missing, Err("could not find kaku binary; checked: a, b".to_string()));
    assert_eq!(kaku_cli_program_for_spawn(&missing), "kaku");
}

#[test]
fn subcommands_run_in_a_login_shell() {
    let doctor = run_kaku_doctor_in_new_tab("/opt/my kaku", Some("/usr/bin/fish"));
    assert_eq!(
        doctor.args.unwrap(),
        vec!["/usr/bin/fish", "-l", "-i", "-c", "'/opt/my kaku' doctor; sleep 2"]
    );
    let plain = run_kaku_doctor_in_new_tab("kaku", None);
    assert_eq!(plain.args.unwrap(), vec!["sh", "-lic", "kaku doctor; sleep 2"]);
    let config = open_kaku_config("kaku");
    assert_eq!(config.place, SpawnWhere::NewWindow);
    assert_eq!(config.args.unwrap(), vec!["kaku", "config"]);
}

#[test]
fn there_is_one_settings_window() {
    let mut windows = SingletonWindows::new();
    assert_eq!(windows.ensure_singleton_window("config", false), SingletonStep::Open);
    assert_eq!(windows.ensure_singleton_window("config", false), SingletonStep::Ignore);
    windows.opened("config", 7);
    assert_eq!(windows.ensure_singleton_window("config", true), SingletonStep::Focus(7));
    assert_eq!(windows.ensure_singleton_window("config", false), SingletonStep::Open);
    windows.failed("config");
    assert_eq!(windows.ensure_singleton_window("config", true), SingletonStep::Open);
}

#[test]
fn restarts_go_stage_by_stage() {
    let mut guard = UpdateGuard { running: false };
    assert!(guard.claim());
    assert!(!guard.claim());
    guard.release();
    assert!(guard.claim());
    assert!(matches!(
        restart_to_update(RestartStage::LookForPackage, None),
        RestartStep::Try(RestartStage::ResolveTarget)
    ));
    assert!(matches!(
        restart_to_update(RestartStage::SpawnHelper, None),
        RestartStep::Finished
    ));
    match restart_to_update(RestartStage::WriteScript, Some("disk full")) {
        RestartStep::FallBack { log, toast, discard_package } => {
            assert_eq!(log, "failed to write helper script: disk full");
            assert!(toast && !discard_package);
        }
        _ => panic!("expected a fallback"),
    }
    match restart_to_update(RestartStage::LookForPackage, Some("")) {
        RestartStep::FallBack { toast, .. } => assert!(!toast),
        _ => panic!("expected a fallback"),
    }
    assert_eq!(helper_script_name(1721827200), "apply-staged-1721827200.sh");
}

#[test]
fn the_default_terminal_is_announced() {
    match set_default_terminal_with_feedback(&DefaultTerminal::Done, 0) {
        Feedback::Alert { title, .. } => assert_eq!(title, "Default Terminal"),
        _ => panic!("expected an alert"),
    }
    match set_default_terminal_with_feedback(&DefaultTerminal::Failed("no".to_string()), 2) {
        Feedback::Toast(text) => assert_eq!(text, "Failed to set default terminal"),
        _ => panic!("expected a toast"),
    }
    assert!(matches!(
        set_default_terminal_with_feedback(&DefaultTerminal::Unavailable, 2),
        Feedback::LogOnly(_)
    ));
}

#[test]
fn questions_are_answered() {
    let none = Translations { entries: vec![] };
    assert_eq!(Question::ClosePane.text(&none), "overlay.confirm_close.pane");
    assert!(Question::ApplyUpdate.text(&none).starts_with("Update Kaku now?"));
    assert_eq!(
        confirm_close_pane(true, 3, Some(2)),
        vec![
            ConfirmStep::KillPane { tab: 2, pane: 3 },
            ConfirmStep::CancelPaneOverlay(3)
        ]
    );
    assert_eq!(confirm_close_pane(false, 3, Some(2)), vec![ConfirmStep::CancelPaneOverlay(3)]);
    assert_eq!(confirm_close_tab(true, 2, true).len(), 3);
    assert_eq!(confirm_close_tab(false, 2, true), vec![ConfirmStep::CancelTabOverlay(2)]);
    assert_eq!(confirm_close_window(true, 1, 2)[0], ConfirmStep::KillWindow(1));
    assert_eq!(confirm_apply_update(true, 2)[0], ConfirmStep::ApplyUpdate);
    assert_eq!(confirm_quit_program(true, 2)[0], ConfirmStep::Quit);
}

#[test]
fn switching_back_and_forth_is_consistent() {
    let mut fe = known(&[(1, 10), (2, 20)]);
    let there = fe.reconcile_workspace(vec![30, 40, 50]);
    assert_eq!(pairs(&there.switched), vec![(1, 30), (2, 40)]);
    assert_eq!(there.remaining, vec![50]);
    fe.record_known_window(3, 50);
    let back = fe.reconcile_workspace(vec![10, 20]);
    assert_eq!(pairs(fe.gui_windows()), vec![(1, 10), (2, 20)]);
    assert_eq!(pairs(&back.closed), vec![(3, 50)]);
}

#[test]
fn events_from_outside_are_handled() {
    let facts = EventFacts {
        is_directory: false,
        windows: vec![4, 5],
        ttys: vec![PaneTty { pane_id: 2, tty: Some("/dev/ttys004".to_string()) }],
        pane_exists: false,
        tab: Some(TabPanes { active: None, panes: vec![8, 9] }),
    };
    let step = |event: ApplicationEvent| app_event_handler(&event, &facts);
    match step(ApplicationEvent::OpenCommandScript("/a b".to_string())) {
        EventStep::Open(open) => {
            assert_eq!(open.window, None);
            assert_eq!(open.input.as_deref(), Some("'/a b' ; exit\n"));
        }
        _ => panic!("expected a script"),
    }
    match step(ApplicationEvent::OpenCommandScriptInTab("/a".to_string())) {
        EventStep::Open(open) => assert_eq!(open.window, Some(5)),
        _ => panic!("expected a script"),
    }
    assert!(matches!(
        step(ApplicationEvent::ActivatePaneForTty("ttys004".to_string())),
        EventStep::Focus(2)
    ));
    assert!(matches!(step(ApplicationEvent::ActivatePaneById(7)), EventStep::Nothing));
    assert!(matches!(step(ApplicationEvent::ActivateTabById(1)), EventStep::Focus(8)));
    assert!(matches!(
        step(ApplicationEvent::PerformKeyAssignment(KeyAssignment::QuitApplication)),
        EventStep::Perform(PerformStep::Quit)
    ));
}
