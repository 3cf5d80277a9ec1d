//! How the application starts: whether a running instance takes over, which
//! domain and workspace come first, and what the command line asks for.
use crate::json::opt_str;
use crate::key_assignment::{
    DomainView, SpawnCommand, SpawnCommandView, SpawnTabDomain, plain_command,
};
use crate::paths::{is_absolute, join_path, path_join, starts_with_slash};
use crate::text::{clone_strings, concat3, concat4, join, joined, opt_view, same, views};
use vstd::prelude::*;
use vstd::string::*;

verus! {

// ---------------------------------------------------------------------------
// A running instance
// ---------------------------------------------------------------------------

/// Whether a running instance takes over, and whether this one is published for
/// later instances.
#[derive(Debug)]
pub enum Publish {
    TryPathOrPublish(String),
    NoConnectNoPublish,
    NoConnectButPublish,
}

pub enum PublishView {
    TryPathOrPublish(Seq<char>),
    NoConnectNoPublish,
    NoConnectButPublish,
}

impl View for Publish {
    type V = PublishView;

    open spec fn view(&self) -> PublishView {
        match *self {
            Publish::TryPathOrPublish(path) => PublishView::TryPathOrPublish(path@),
            Publish::NoConnectNoPublish => PublishView::NoConnectNoPublish,
            Publish::NoConnectButPublish => PublishView::NoConnectButPublish,
        }
    }
}

pub open spec fn or_default(o: Option<Seq<char>>, other: Seq<char>) -> Seq<char> {
    match o {
        Some(s) => s,
        None => other,
    }
}

/// Whether a running instance may take over.
pub open spec fn may_hand_over(
    mux_default_domain: Seq<char>,
    config_default_domain: Option<Seq<char>>,
    always_new_process: bool,
    config_overridden: bool,
) -> bool {
    mux_default_domain == or_default(config_default_domain, "local"@) && !always_new_process
        && !config_overridden
}

fn text_or<'a>(o: Option<&'a str>, other: &'a str) -> (r: &'a str)
    ensures
        r@ == or_default(opt_str(o), other@),
{
    match o {
        Some(s) => s,
        None => other,
    }
}

/// Whether a running instance may take over: only where it would start in the
/// same domain, and neither a new process nor another configuration was asked
/// for.
pub fn should_try_existing_gui(
    mux_default_domain: &str,
    config_default_domain: Option<&str>,
    always_new_process: bool,
    config_overridden: bool,
) -> (r: bool)
    ensures
        r == may_hand_over(
            mux_default_domain@,
            opt_str(config_default_domain),
            always_new_process,
            config_overridden,
        ),
{
    let wanted = text_or(config_default_domain, "local");
    same(mux_default_domain, wanted) && !always_new_process && !config_overridden
}

pub fn should_spawn_in_current_window(new_tab: bool, prefer_to_spawn_tabs: bool) -> (r: bool)
    ensures
        r == (new_tab || prefer_to_spawn_tabs),
{
    new_tab || prefer_to_spawn_tabs
}

/// Why a running instance does not take over.
#[derive(Clone, Copy, Debug, PartialEq, Eq, Structural)]
pub enum HandoffError {
    OtherExecutable,
    OtherConfig,
}

impl HandoffError {
    pub fn message(self) -> (r: &'static str)
        ensures
            r@ == (match self {
                HandoffError::OtherExecutable => {
                    "Running GUI is a different executable from us, will start a new one"@
                },
                HandoffError::OtherConfig => {
                    "Running GUI has different config from us, will start a new one"@
                },
            }),
    {
        match self {
            HandoffError::OtherExecutable => {
                "Running GUI is a different executable from us, will start a new one"
            },
            HandoffError::OtherConfig => {
                "Running GUI has different config from us, will start a new one"
            },
        }
    }
}

/// A pane of the running instance.
#[derive(Clone, Copy, Debug, PartialEq, Eq, Structural)]
pub struct PaneEntry {
    pub pane_id: u64,
    pub window_id: u64,
}

/// The window of a pane, if it is listed.
pub open spec fn window_of(entries: Seq<PaneEntry>, pane_id: u64) -> Option<u64>
    decreases entries.len(),
{
    if entries.len() == 0 {
        None
    } else if entries[0].pane_id == pane_id {
        Some(entries[0].window_id)
    } else {
        window_of(entries.drop_first(), pane_id)
    }
}

/// The window that a running instance spawns into: that of its current pane,
/// where a tab is wanted.
pub fn handoff_window(
    new_tab: bool,
    prefer_to_spawn_tabs: bool,
    current_pane: Option<u64>,
    panes: &Vec<PaneEntry>,
) -> (r: Option<u64>)
    ensures
        r == (match current_pane {
            Some(pane_id) => if new_tab || prefer_to_spawn_tabs {
                window_of(panes@, pane_id)
            } else {
                None
            },
            None => None,
        }),
{
    if !should_spawn_in_current_window(new_tab, prefer_to_spawn_tabs) {
        return None;
    }
    match current_pane {
        None => None,
        Some(pane_id) => {
            let mut i: usize = 0;
            assert(panes@.skip(0) =~= panes@);
            while i < panes.len()
                invariant
                    i <= panes.len(),
                    new_tab || prefer_to_spawn_tabs,
                    current_pane == Some(pane_id),
                    window_of(panes@, pane_id) == window_of(panes@.skip(i as int), pane_id),
                decreases panes.len() - i,
            {
                assert(panes@.skip(i as int).drop_first() =~= panes@.skip(i + 1));
                if panes[i].pane_id == pane_id {
                    return Some(panes[i].window_id);
                }
                i += 1;
            }
            None
        },
    }
}

impl Publish {
    /// Where to look for a running instance. `gui_sock` is the socket that one
    /// has published, if any.
    pub fn resolve(
        mux_default_domain: &str,
        config_default_domain: Option<&str>,
        always_new_process: bool,
        config_overridden: bool,
        gui_sock: Option<&str>,
    ) -> (r: Publish)
        ensures
            r@ == (if !may_hand_over(
                mux_default_domain@,
                opt_str(config_default_domain),
                always_new_process,
                config_overridden,
            ) {
                PublishView::NoConnectNoPublish
            } else {
                match opt_str(gui_sock) {
                    Some(path) => PublishView::TryPathOrPublish(path),
                    None => PublishView::NoConnectButPublish,
                }
            }),
    {
        if !should_try_existing_gui(
            mux_default_domain,
            config_default_domain,
            always_new_process,
            config_overridden,
        ) {
            return Publish::NoConnectNoPublish;
        }
        match gui_sock {
            Some(path) => Publish::TryPathOrPublish(path.to_owned()),
            None => Publish::NoConnectButPublish,
        }
    }

    pub fn should_publish(&self) -> (r: bool)
        ensures
            r == !(self@ is NoConnectNoPublish),
    {
        match self {
            Publish::TryPathOrPublish(_) | Publish::NoConnectButPublish => true,
            Publish::NoConnectNoPublish => false,
        }
    }

    /// Looks at the instance that answered: one that differs from this one does
    /// not take over, and this one is not published in its place.
    pub fn vet_running_gui(&mut self, same_executable: bool, same_config: bool) -> (r: Result<
        (),
        HandoffError,
    >)
        ensures
            r == (if !same_executable {
                Err(HandoffError::OtherExecutable)
            } else if !same_config {
                Err(HandoffError::OtherConfig)
            } else {
                Ok(())
            }),
            final(self)@ == (if r is Ok {
                old(self)@
            } else {
                PublishView::NoConnectNoPublish
            }),
    {
        if !same_executable {
            *self = Publish::NoConnectNoPublish;
            return Err(HandoffError::OtherExecutable);
        }
        if !same_config {
            *self = Publish::NoConnectNoPublish;
            return Err(HandoffError::OtherConfig);
        }
        Ok(())
    }
}

// ---------------------------------------------------------------------------
// Options
// ---------------------------------------------------------------------------

/// What the command line asks for.
#[derive(Debug)]
pub struct StartCommand {
    pub no_auto_connect: bool,
    pub always_new_process: bool,
    pub new_tab: bool,
    pub cwd: Option<String>,
    pub class: Option<String>,
    pub workspace: Option<String>,
    pub position: Option<String>,
    pub domain: Option<String>,
    pub attach: bool,
    pub prog: Vec<String>,
}

#[derive(Debug)]
pub enum SubCommand {
    Start(StartCommand),
    /// Act as if the normal start subcommand was used, except that we always
    /// start a new instance. This is needed for compatibility, because many tools
    /// assume that "$TERMINAL -e $COMMAND" blocks until the command finished.
    BlockingStart(StartCommand),
}

/// What a subcommand starts.
pub fn start_of(sub: SubCommand) -> (r: StartCommand)
    ensures
        r == (match sub {
            SubCommand::Start(start) => start,
            SubCommand::BlockingStart(start) => StartCommand {
                always_new_process: true,
                ..start
            },
        }),
{
    match sub {
        SubCommand::Start(start) => start,
        SubCommand::BlockingStart(start) => {
            let mut start = start;
            start.always_new_process = true;
            start
        },
    }
}

/// The command line that stands in where none is given: the configured one.
pub fn default_argv(startup_args: &Vec<String>) -> (r: Vec<String>)
    ensures
        views(r@) == seq!["kaku-gui"@] + views(startup_args@),
{
    let mut argv: Vec<String> = Vec::new();
    // Need to fake an argv0
    argv.push("kaku-gui".to_owned());
    let mut rest = clone_strings(startup_args);
    let ghost more = views(rest@);
    argv.append(&mut rest);
    assert(views(argv@) =~= seq!["kaku-gui"@] + more);
    argv
}

/// Whether the user's configuration file is made where it is missing.
pub fn ensures_user_config(has_config_file: bool, skip_config: bool) -> (r: bool)
    ensures
        r == (!has_config_file && !skip_config),
{
    !has_config_file && !skip_config
}

impl StartCommand {
    /// Whether a program is built: one was named, or a directory for the default
    /// one.
    pub fn needs_builder(&self) -> (r: bool)
        ensures
            r == (self.prog@.len() > 0 || self.cwd is Some),
    {
        self.prog.len() > 0 || self.cwd.is_some()
    }

    /// The directory that the program starts in.
    pub fn start_directory(&self, current_dir: &str) -> (r: Option<String>)
        ensures
            opt_view(r) == (match self.cwd {
                Some(cwd) => Some(
                    if is_absolute(cwd@) {
                        cwd@
                    } else {
                        path_join(current_dir@, cwd@)
                    },
                ),
                None => None,
            }),
    {
        match &self.cwd {
            Some(cwd) => if starts_with_slash(cwd.as_str()) {
                Some(cwd.clone())
            } else {
                Some(join_path(current_dir, cwd.as_str()))
            },
            None => None,
        }
    }

    /// Whether a running instance is passed over.
    pub fn wants_new_process(&self) -> (r: bool)
        ensures
            r == (self.always_new_process || self.position is Some),
    {
        self.always_new_process || self.position.is_some()
    }

    /// The domain that a running instance spawns into.
    pub fn handoff_domain(&self) -> (r: SpawnTabDomain)
        ensures
            r@ == (match self.domain {
                Some(name) => DomainView::DomainName(name@),
                None => DomainView::DefaultDomain,
            }),
    {
        match &self.domain {
            Some(name) => SpawnTabDomain::DomainName(name.clone()),
            None => SpawnTabDomain::DefaultDomain,
        }
    }
}

/// The workspace that comes first: the one asked for, else the configured one.
pub fn initial_workspace(asked: Option<&str>, configured: Option<&str>, default_name: &str) -> (r:
    String)
    ensures
        r@ == or_default(opt_str(asked), or_default(opt_str(configured), default_name@)),
{
    text_or(asked, text_or(configured, default_name)).to_owned()
}

/// The domain that comes first: the one asked for, else the configured one.
pub fn initial_domain(asked: Option<&str>, configured: Option<&str>) -> (r: String)
    ensures
        r@ == or_default(opt_str(asked), or_default(opt_str(configured), "local"@)),
{
    text_or(asked, text_or(configured, "local")).to_owned()
}

/// Whether the other domains are built before the first window. Startup
/// fast-path: where local is the default domain, that waits.
pub fn builds_domains_first(default_domain: &str) -> (r: bool)
    ensures
        r == (default_domain@ != "local"@),
{
    !same(default_domain, "local")
}

pub fn missing_default_domain(name: &str) -> (r: String)
    ensures
        r@ == "desired default domain '"@ + name@ + "' was not found in mux!?"@,
{
    concat3("desired default domain '", name, "' was not found in mux!?")
}

// ---------------------------------------------------------------------------
// The first window
// ---------------------------------------------------------------------------

/// Whether a domain has panes, in the workspace where one is given. The lists
/// hold the domain of each pane.
pub fn have_panes_in_domain_and_ws(
    domain: u64,
    panes: &Vec<u64>,
    workspace_panes: Option<&Vec<u64>>,
) -> (r: bool)
    ensures
        r == (panes@.contains(domain) && (match workspace_panes {
            Some(list) => list@.contains(domain),
            None => true,
        })),
{
    if !contains_id(panes, domain) {
        return false;
    }
    match workspace_panes {
        Some(list) => contains_id(list, domain),
        None => true,
    }
}

fn contains_id(list: &Vec<u64>, id: u64) -> (r: bool)
    ensures
        r == list@.contains(id),
{
    let mut i: usize = 0;
    while i < list.len()
        invariant
            i <= list.len(),
            forall|k: int| 0 <= k < i ==> list@[k] != id,
        decreases list.len() - i,
    {
        if list[i] == id {
            return true;
        }
        i += 1;
    }
    false
}

/// What is done for the first tab.
#[derive(Clone, Copy, Debug, PartialEq, Eq, Structural)]
pub enum FirstTabStep {
    /// There are panes already.
    Leave,
    /// Make a window and attach the domain to it.
    Attach,
    /// The domain brought its panes along.
    AnnounceAttached,
    /// Spawn the first tab in the domain.
    SpawnTab,
}

/// What is done for the first tab, before the domain is attached and after.
pub fn first_tab_step(attached: bool, is_connecting: bool, have_panes: bool) -> (r: FirstTabStep)
    ensures
        r == (if attached {
            if have_panes {
                FirstTabStep::AnnounceAttached
            } else {
                FirstTabStep::SpawnTab
            }
        } else if !is_connecting && have_panes {
            FirstTabStep::Leave
        } else {
            FirstTabStep::Attach
        }),
{
    if attached {
        if have_panes {
            FirstTabStep::AnnounceAttached
        } else {
            FirstTabStep::SpawnTab
        }
    } else if !is_connecting && have_panes {
        FirstTabStep::Leave
    } else {
        FirstTabStep::Attach
    }
}

/// The command with the domain that was asked for.
pub open spec fn command_in_domain(
    command: Option<SpawnCommandView>,
    domain: Option<Seq<char>>,
) -> Option<SpawnCommandView> {
    match domain {
        Some(name) => Some(
            SpawnCommandView {
                domain: DomainView::DomainName(name),
                ..match command {
                    Some(c) => c,
                    None => plain_command(DomainView::CurrentPaneDomain),
                }
            },
        ),
        None => command,
    }
}

pub open spec fn opt_spawn(c: Option<SpawnCommand>) -> Option<SpawnCommandView> {
    match c {
        Some(c) => Some(c@),
        None => None,
    }
}

/// Applies the domain to the command.
pub fn apply_domain(command: Option<SpawnCommand>, domain: Option<&str>) -> (r: Option<
    SpawnCommand,
>)
    ensures
        opt_spawn(r) == command_in_domain(opt_spawn(command), opt_str(domain)),
{
    match domain {
        Some(name) => {
            let mut spawn = match command {
                Some(c) => c,
                None => SpawnCommand::in_domain(SpawnTabDomain::CurrentPaneDomain),
            };
            spawn.domain = SpawnTabDomain::DomainName(name.to_owned());
            Some(spawn)
        },
        None => command,
    }
}

pub fn invalid_domain(name: &str) -> (r: String)
    ensures
        r@ == "invalid domain "@ + name@,
{
    crate::text::concat2("invalid domain ", name)
}

/// A step on the way to the first window.
#[derive(Clone, Copy, Debug, PartialEq, Eq, Structural)]
pub enum StartupStep {
    /// Build the other domains, and connect those that connect by themselves,
    /// when there is time.
    DeferDomains,
    /// Connect the domains that connect by themselves.
    ConnectDomains,
    /// Tell the user's configuration.
    EmitStartup,
    /// Open a window in the domain that was asked for.
    OpenInDomain,
    /// Restore the previous session. Where that succeeds, nothing is left to do.
    RestoreSession,
    /// Spawn a tab, where there is none.
    SpawnIfEmpty,
}

/// The steps to the first window.
pub open spec fn startup_plan(
    opts: StartCommand,
    default_is_local: bool,
    has_program: bool,
    restores_session: bool,
) -> Seq<StartupStep> {
    let none = Seq::<StartupStep>::empty();
    let deferred = if default_is_local {
        seq![StartupStep::DeferDomains]
    } else {
        none
    };
    let connected = if !opts.no_auto_connect && !(default_is_local && opts.domain is None) {
        seq![StartupStep::ConnectDomains]
    } else {
        none
    };
    let told = if !opts.attach {
        seq![StartupStep::EmitStartup]
    } else {
        none
    };
    let opened = if opts.domain is Some && !opts.attach {
        seq![StartupStep::OpenInDomain]
    } else {
        none
    };
    let restored = if !has_program && opts.domain is None && !opts.attach && restores_session {
        seq![StartupStep::RestoreSession]
    } else {
        none
    };
    deferred + connected + told + opened + restored + seq![StartupStep::SpawnIfEmpty]
}

/// The steps to the first window.
pub fn startup_steps(
    opts: &StartCommand,
    default_is_local: bool,
    has_program: bool,
    restores_session: bool,
) -> (r: Vec<StartupStep>)
    ensures
        r@ == startup_plan(*opts, default_is_local, has_program, restores_session),
{
    let mut out: Vec<StartupStep> = Vec::new();
    if default_is_local {
        out.push(StartupStep::DeferDomains);
    }
    if !opts.no_auto_connect {
        // Preserve startup semantics when the startup target is a
        // non-local/explicit domain.
        if !(default_is_local && opts.domain.is_none()) {
            out.push(StartupStep::ConnectDomains);
        }
    }
    if !opts.attach {
        out.push(StartupStep::EmitStartup);
    }
    if opts.domain.is_some() && !opts.attach {
        out.push(StartupStep::OpenInDomain);
    }
    if !has_program && opts.domain.is_none() && !opts.attach && restores_session {
        out.push(StartupStep::RestoreSession);
    }
    out.push(StartupStep::SpawnIfEmpty);
    assert(out@ =~= startup_plan(*opts, default_is_local, has_program, restores_session));
    out
}

/// A session is only restored where nothing else was asked for, and never where
/// an existing session is attached to.
pub proof fn sessions_are_restored_unasked_only(
    opts: StartCommand,
    default_is_local: bool,
    has_program: bool,
    restores_session: bool,
)
    ensures
        startup_plan(opts, default_is_local, has_program, restores_session).contains(
            StartupStep::RestoreSession,
        ) <==> !has_program && opts.domain is None && !opts.attach && restores_session,
{
    let plan = startup_plan(opts, default_is_local, has_program, restores_session);
    if !has_program && opts.domain is None && !opts.attach && restores_session {
        assert(plan[plan.len() - 2] == StartupStep::RestoreSession);
    }
}

// ---------------------------------------------------------------------------
// Errors
// ---------------------------------------------------------------------------

/// Whether a fatal error is shown as a notification.
pub fn shows_fatal_toast(debug_build: bool, asked_for: bool) -> (r: bool)
    ensures
        r == (!debug_build || asked_for),
{
    if debug_build {
        asked_for
    } else {
        true
    }
}

/// What is said of a fatal error: what is wrong with the configuration is said
/// along with it.
pub fn fatal_error_text(error: &str, warnings: &Vec<String>) -> (r: String)
    ensures
        r@ == (if warnings@.len() == 0 {
            error@
        } else {
            error@ + "\nConfiguration Error: "@ + joined(views(warnings@), "\n"@)
        }),
{
    if warnings.len() == 0 {
        error.to_owned()
    } else {
        let list = join(warnings, "\n");
        concat3(error, "\nConfiguration Error: ", list.as_str())
    }
}

/// What is said of an event that the user's configuration failed on.
pub fn event_failure_text(event: &str, error: &str) -> (r: String)
    ensures
        r@ == "while processing "@ + event@ + " event: "@ + error@,
{
    concat4("while processing ", event, " event: ", error)
}

/// What is said of a configuration with mistakes in it.
pub fn configuration_error_text(warnings: &Vec<String>) -> (r: Option<String>)
    ensures
        opt_view(r) == (if warnings@.len() == 0 {
            None
        } else {
            Some(joined(views(warnings@), "\n"@))
        }),
{
    if warnings.len() == 0 {
        None
    } else {
        Some(join(warnings, "\n"))
    }
}

// ---------------------------------------------------------------------------
// The command line chat
// ---------------------------------------------------------------------------

/// What the command line chat is asked for.
#[derive(Debug)]
pub struct CliArgs {
    /// A question; without one, the chat is interactive.
    pub prompt: Option<String>,
    pub new: bool,
    /// Resume: the conversation with this id, or one from a list.
    pub resume: Option<Option<String>>,
}

/// What the command line chat is asked for, from its words.
pub fn cli_args(prompt: &Vec<String>, new: bool, resume: Option<&str>) -> (r: CliArgs)
    ensures
        opt_view(r.prompt) == (if prompt@.len() == 0 {
            None
        } else {
            Some(joined(views(prompt@), " "@))
        }),
        r.new == new,
        match opt_str(resume) {
            None => r.resume is None,
            Some(id) => r.resume matches Some(picked) && opt_view(picked) == (if id.len() == 0 {
                None
            } else {
                Some(id)
            }),
        },
{
    let text = if prompt.len() == 0 {
        None
    } else {
        Some(join(prompt, " "))
    };
    let resume = match resume {
        None => None,
        Some(id) => if id.is_empty() {
            Some(None)
        } else {
            Some(Some(id.to_owned()))
        },
    };
    CliArgs { prompt: text, new, resume }
}

} // verus!
