use kaku::key_assignment::SpawnTabDomain;
use kaku::startup::{
    apply_domain, builds_domains_first, cli_args, configuration_error_text, default_argv,
    ensures_user_config, event_failure_text, fatal_error_text, first_tab_step, handoff_window,
    have_panes_in_domain_and_ws, initial_domain, initial_workspace, invalid_domain,
    missing_default_domain, should_spawn_in_current_window, should_try_existing_gui,
    shows_fatal_toast, start_of, startup_steps, FirstTabStep, HandoffError, PaneEntry, Publish,
    StartCommand, StartupStep, SubCommand,
};

fn start() -> StartCommand {
    StartCommand {
        no_auto_connect: false,
        always_new_process: false,
        new_tab: false,
        cwd: None,
        class: None,
        workspace: None,
        position: None,
        domain: None,
        attach: false,
        prog: vec![],
    }
}

#[test]
fn existing_gui_handoff_requires_matching_default_domain() {
    assert!(should_try_existing_gui("local", None, false, false));
    assert!(should_try_existing_gui(
        "local",
        Some("local"),
        false,
        false
    ));
    assert!(!should_try_existing_gui("ssh", Some("local"), false, false));
}

#[test]
fn existing_gui_handoff_respects_new_process_and_config_override() {
    assert!(!should_try_existing_gui(
        "local",
        Some("local"),
        true,
        false
    ));
    assert!(!should_try_existing_gui(
        "local",
        Some("local"),
        false,
        true
    ));
}

#[test]
fn current_window_spawning_respects_new_tab_preferences() {
    assert!(should_spawn_in_current_window(true, false));
    assert!(should_spawn_in_current_window(false, true));
    assert!(!should_spawn_in_current_window(false, false));
}

#[test]
fn instances_are_published_where_they_may_take_over() {
    let mut publish = Publish::resolve("local", None, false, false, Some("/run/sock"));
    assert!(publish.should_publish());
    assert!(matches!(publish, Publish::TryPathOrPublish(_)));
    assert_eq!(publish.vet_running_gui(true, true), Ok(()));
    assert_eq!(
        publish.vet_running_gui(true, false),
        Err(HandoffError::OtherConfig)
    );
    assert!(!publish.should_publish());
    assert!(HandoffError::OtherExecutable.message().contains("different executable"));
    let fresh = Publish::resolve("local", None, false, false, None);
    assert!(matches!(fresh, Publish::NoConnectButPublish));
    assert!(matches!(
        Publish::resolve("ssh", None, false, false, Some("/run/sock")),
        Publish::NoConnectNoPublish
    ));
}

#[test]
fn tabs_go_to_the_window_of_the_current_pane() {
    let panes = vec![
        PaneEntry { pane_id: 1, window_id: 10 },
        PaneEntry { pane_id: 2, window_id: 20 },
    ];
    assert_eq!(handoff_window(true, false, Some(2), &panes), Some(20));
    assert_eq!(handoff_window(false, false, Some(2), &panes), None);
    assert_eq!(handoff_window(true, false, None, &panes), None);
    assert_eq!(handoff_window(true, false, Some(3), &panes), None);
}

#[test]
fn options_are_read() {
    assert!(start_of(SubCommand::BlockingStart(start())).always_new_process);
    assert!(!start_of(SubCommand::Start(start())).always_new_process);
    assert_eq!(default_argv(&vec!["start".to_string()]), vec!["kaku-gui", "start"]);
    assert!(ensures_user_config(false, false));
    assert!(!ensures_user_config(true, false));
    let mut opts = start();
    assert!(!opts.needs_builder());
    assert!(!opts.wants_new_process());
    assert_eq!(opts.handoff_domain(), SpawnTabDomain::DefaultDomain);
    opts.cwd = Some("sub".to_string());
    opts.position = Some("0,0".to_string());
    opts.domain = Some("ssh".to_string());
    assert!(opts.needs_builder());
    assert!(opts.wants_new_process());
    assert_eq!(opts.start_directory("/work"), Some("/work/sub".to_string()));
    opts.cwd = Some("/abs".to_string());
    assert_eq!(opts.start_directory("/work"), Some("/abs".to_string()));
    assert_eq!(opts.handoff_domain(), SpawnTabDomain::DomainName("ssh".to_string()));
}

#[test]
fn workspace_and_domain_have_defaults() {
    assert_eq!(initial_workspace(None, None, "default"), "default");
    assert_eq!(initial_workspace(None, Some("w"), "default"), "w");
    assert_eq!(initial_workspace(Some("a"), Some("w"), "default"), "a");
    assert_eq!(initial_domain(None, None), "local");
    assert!(!builds_domains_first("local"));
    assert!(builds_domains_first("ssh"));
    assert_eq!(
        missing_default_domain("x"),
        "desired default domain 'x' was not found in mux!?"
    );
    assert_eq!(invalid_domain("x"), "invalid domain x");
}

#[test]
fn the_first_tab_is_spawned_once() {
    assert!(have_panes_in_domain_and_ws(1, &vec![2, 1], None));
    assert!(!have_panes_in_domain_and_ws(1, &vec![2], None));
    assert!(!have_panes_in_domain_and_ws(1, &vec![1], Some(&vec![2])));
    assert_eq!(first_tab_step(false, false, true), FirstTabStep::Leave);
    assert_eq!(first_tab_step(false, true, true), FirstTabStep::Attach);
    assert_eq!(first_tab_step(true, false, true), FirstTabStep::AnnounceAttached);
    assert_eq!(first_tab_step(true, false, false), FirstTabStep::SpawnTab);
}

#[test]
fn startup_goes_step_by_step() {
    assert_eq!(
        startup_steps(&start(), true, false, true),
        vec![
            StartupStep::DeferDomains,
            StartupStep::EmitStartup,
            StartupStep::RestoreSession,
            StartupStep::SpawnIfEmpty
        ]
    );
    let mut opts = start();
    opts.domain = Some("ssh".to_string());
    assert_eq!(
        startup_steps(&opts, false, false, true),
        vec![
            StartupStep::ConnectDomains,
            StartupStep::EmitStartup,
            StartupStep::OpenInDomain,
            StartupStep::SpawnIfEmpty
        ]
    );
    opts.attach = true;
    opts.no_auto_connect = true;
    assert_eq!(startup_steps(&opts, false, false, true), vec![StartupStep::SpawnIfEmpty]);
    let spawn = apply_domain(None, Some("ssh")).unwrap();
    assert_eq!(spawn.domain, SpawnTabDomain::DomainName("ssh".to_string()));
    assert!(apply_domain(None, None).is_none());
}

#[test]
fn errors_mention_the_configuration() {
    assert!(shows_fatal_toast(false, false));
    assert!(!shows_fatal_toast(true, false));
    assert_eq!(fatal_error_text("bad", &vec![]), "bad");
    let warnings = vec!["a".to_string(), "b".to_string()];
    assert_eq!(fatal_error_text("bad", &warnings), "bad\nConfiguration Error: a\nb");
    assert_eq!(configuration_error_text(&warnings), Some("a\nb".to_string()));
    assert_eq!(configuration_error_text(&vec![]), None);
    assert_eq!(
        event_failure_text("gui-startup", "oops"),
        "while processing gui-startup event: oops"
    );
}

#[test]
fn the_command_line_chat_reads_its_words() {
    let args = cli_args(&vec!["what".to_string(), "now?".to_string()], true, None);
    assert_eq!(args.prompt.as_deref(), Some("what now?"));
    assert!(args.new);
    assert_eq!(args.resume, None);
    assert_eq!(cli_args(&vec![], false, Some("")).resume, Some(None));
    assert_eq!(
        cli_args(&vec![], false, Some("id")).resume,
        Some(Some("id".to_string()))
    );
}
