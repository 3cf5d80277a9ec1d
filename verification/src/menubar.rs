//! The menubar: the commands that it holds, and the plan by which its menus
//! are rebuilt.
use crate::commands::{
    CommandDef, Config, ExpandedCommand, ExpandedView, KeyBinding, Platform, Translations,
    command_of, default_actions, derive_command_from_key_assignment, expanded_views, expansions,
    localize_menubar_segment, localized, translated,
};
use crate::key_assignment::{
    ActionView, DomainView, KeyAssignment, PaneSelectMode, SpawnCommand, SpawnCommandView,
    SpawnTabDomain, action_views, plain_command,
};
use crate::keys::{ALT, CTRL, KeyCode, Modifiers, SHIFT, SUPER, contains_mods, has_mods};
use crate::order::{
    SortKey, SortKeyView, index_views, key_views, precedes, reordered, sort_order, stable_order,
    stable_order_sorts,
};
use crate::palette::{
    BindingView, InputMap, action_index, bound, bound_command, by_preference, find_action,
    lemma_action_index, make_bound_command, pick_commands, sort_chords,
};
use crate::text::{
    chars_of, concat2, concat3, contains_string, join, joined, same, same_strings, string_of_range,
    views,
};
use vstd::prelude::*;
use vstd::string::*;

verus! {

// ---------------------------------------------------------------------------
// The commands
// ---------------------------------------------------------------------------

/// A multiplexer domain.
#[derive(Debug)]
pub struct Domain {
    pub id: usize,
    pub name: String,
    pub spawnable: bool,
    pub attached: bool,
}

/// What the menubar reads of the multiplexer.
#[derive(Debug)]
pub struct MuxState {
    pub domains: Vec<Domain>,
    pub active_workspace: String,
    pub workspaces: Vec<String>,
}

pub struct NamedDomain {
    pub id: usize,
    pub name: Seq<char>,
    pub spawnable: bool,
    pub attached: bool,
}

impl View for Domain {
    type V = NamedDomain;

    open spec fn view(&self) -> NamedDomain {
        NamedDomain {
            id: self.id,
            name: self.name@,
            spawnable: self.spawnable,
            attached: self.attached,
        }
    }
}

pub open spec fn domain_views(list: Seq<Domain>) -> Seq<NamedDomain> {
    list.map_values(|d: Domain| d@)
}

/// A command that is made up from the state, without keys or documentation.
pub open spec fn dynamic_command(
    brief: Seq<char>,
    action: ActionView,
    menu: Seq<char>,
) -> ExpandedView {
    ExpandedView { brief, doc: ""@, action, keys: seq![], menubar: seq![menu], icon: None }
}

fn add_dynamic(
    list: &mut Vec<ExpandedCommand>,
    brief: String,
    action: KeyAssignment,
    menu: &str,
)
    ensures
        expanded_views(final(list)@) == expanded_views(old(list)@).push(
            dynamic_command(brief@, action@, menu@),
        ),
{
    let mut menubar: Vec<String> = Vec::new();
    menubar.push(menu.to_owned());
    assert(views(menubar@) =~= seq![menu@]);
    let command = ExpandedCommand {
        brief,
        doc: "".to_owned(),
        action,
        keys: Vec::new(),
        menubar,
        icon: None,
    };
    assert(command@.keys =~= seq![]);
    list.push(command);
    assert(expanded_views(list@) =~= expanded_views(old(list)@).push(
        dynamic_command(brief@, action@, menu@),
    ));
}

/// What the launch menu calls a command.
pub open spec fn launch_label(c: SpawnCommandView) -> Seq<char> {
    match c.label {
        Some(label) => label,
        None => match c.args {
            Some(args) => joined(args, " "@),
            None => "(default shell)"@,
        },
    }
}

fn launch_name(c: &SpawnCommand) -> (r: String)
    ensures
        r@ == launch_label(c@),
{
    match &c.label {
        Some(label) => label.clone(),
        None => match &c.args {
            Some(args) => join(args, " "),
            None => "(default shell)".to_owned(),
        },
    }
}

/// One command for each entry of the launch menu.
pub open spec fn launch_commands(menu: Seq<SpawnCommand>) -> Seq<ExpandedView> {
    menu.map_values(
        |c: SpawnCommand|
            dynamic_command(
                launch_label(c@) + " (New Tab)"@,
                ActionView::SpawnCommandInNewTab(c@),
                "Shell"@,
            ),
    )
}

/// What domains are sorted by: the attached ones first, then by id.
pub open spec fn domain_rank(d: NamedDomain) -> SortKeyView {
    SortKeyView {
        major: if d.attached {
            0
        } else {
            1
        },
        minor: d.id as u64,
        text: seq![],
    }
}

pub open spec fn domain_ranks(list: Seq<NamedDomain>) -> Seq<SortKeyView> {
    list.map_values(|d: NamedDomain| domain_rank(d))
}

pub open spec fn sorted_domains(list: Seq<NamedDomain>) -> Seq<NamedDomain> {
    reordered(list, stable_order(domain_ranks(list)))
}

fn sort_domains(list: &Vec<Domain>) -> (r: Vec<usize>)
    ensures
        reordered(domain_views(list@), index_views(r@)) == sorted_domains(domain_views(list@)),
        forall|k: int| 0 <= k < r.len() ==> #[trigger] r@[k] < list.len(),
{
    let mut ranks: Vec<SortKey> = Vec::new();
    let mut i: usize = 0;
    while i < list.len()
        invariant
            i <= list.len(),
            ranks.len() == i,
            forall|k: int| 0 <= k < i ==> #[trigger] ranks@[k]@ == domain_rank(list@[k]@),
        decreases list.len() - i,
    {
        let major: u64 = if list[i].attached {
            0
        } else {
            1
        };
        let rank = SortKey { major, minor: list[i].id as u64, text: String::new() };
        assert(rank@.text =~= seq![]);
        ranks.push(rank);
        i += 1;
    }
    assert(key_views(ranks@) =~= domain_ranks(domain_views(list@)));
    let order = sort_order(&ranks);
    assert forall|k: int| 0 <= k < order.len() implies #[trigger] order@[k] < list.len() by {
        assert(index_views(order@)[k] == order@[k]);
    }
    order
}

/// What a domain offers: a tab where it is attached, else to attach it.
pub open spec fn domain_command(d: NamedDomain) -> ExpandedView {
    if d.attached {
        dynamic_command(
            "New Tab (Domain "@ + d.name + ")"@,
            ActionView::SpawnCommandInNewTab(plain_command(DomainView::DomainName(d.name))),
            "Shell"@,
        )
    } else {
        dynamic_command("Attach Domain "@ + d.name, ActionView::AttachDomain(d.name), "Shell"@)
    }
}

pub open spec fn domain_commands(domains: Seq<NamedDomain>) -> Seq<ExpandedView>
    decreases domains.len(),
{
    if domains.len() == 0 {
        seq![]
    } else {
        let before = domain_commands(domains.drop_last());
        if domains.last().spawnable {
            before.push(domain_command(domains.last()))
        } else {
            before
        }
    }
}

pub open spec fn detach_command(d: NamedDomain) -> ExpandedView {
    dynamic_command(
        "Detach Domain "@ + d.name,
        ActionView::DetachDomain(DomainView::DomainName(d.name)),
        "Shell"@,
    )
}

/// The attached domains can be detached, but for the local one.
pub open spec fn detach_commands(domains: Seq<NamedDomain>) -> Seq<ExpandedView>
    decreases domains.len(),
{
    if domains.len() == 0 {
        seq![]
    } else {
        let before = detach_commands(domains.drop_last());
        if domains.last().attached && domains.last().name != "local"@ {
            before.push(detach_command(domains.last()))
        } else {
            before
        }
    }
}

pub open spec fn switch_command(workspace: Seq<char>) -> ExpandedView {
    dynamic_command(
        "Switch to workspace "@ + workspace,
        ActionView::SwitchToWorkspace { name: Some(workspace), spawn: None },
        "Window"@,
    )
}

/// The workspaces that are not active can be switched to.
pub open spec fn workspace_commands(active: Seq<char>, workspaces: Seq<Seq<char>>) -> Seq<
    ExpandedView,
>
    decreases workspaces.len(),
{
    if workspaces.len() == 0 {
        seq![]
    } else {
        let before = workspace_commands(active, workspaces.drop_last());
        if workspaces.last() != active {
            before.push(switch_command(workspaces.last()))
        } else {
            before
        }
    }
}

pub open spec fn create_workspace_command() -> ExpandedView {
    dynamic_command(
        "Create new Workspace"@,
        ActionView::SwitchToWorkspace { name: None, spawn: None },
        "Window"@,
    )
}

/// The commands that follow from the state of the multiplexer.
pub open spec fn mux_commands(mux: MuxState) -> Seq<ExpandedView> {
    let domains = sorted_domains(domain_views(mux.domains@));
    (domain_commands(domains) + detach_commands(domains) + workspace_commands(
        mux.active_workspace@,
        views(mux.workspaces@),
    )).push(create_workspace_command())
}

/// The list after one more binding: a command for its action, where no command
/// has it.
pub open spec fn swept(list: Seq<ExpandedView>, b: BindingView, platform: Platform) -> Seq<
    ExpandedView,
> {
    if action_index(list, b.action) < list.len() {
        list
    } else {
        match bound_command(b, platform) {
            Some(command) => list.push(command),
            None => list,
        }
    }
}

pub open spec fn swept_bindings(
    list: Seq<ExpandedView>,
    bindings: Seq<BindingView>,
    platform: Platform,
) -> Seq<ExpandedView>
    decreases bindings.len(),
{
    if bindings.len() == 0 {
        list
    } else {
        swept(swept_bindings(list, bindings.drop_last(), platform), bindings.last(), platform)
    }
}

/// The command of an action of a named key table: it shows no key.
pub open spec fn named_command(action: ActionView, platform: Platform) -> Option<ExpandedView> {
    match command_of(action, platform) {
        Some(def) => Some(
            ExpandedView {
                brief: def.brief,
                doc: def.doc,
                action,
                keys: seq![],
                menubar: def.menubar,
                icon: def.icon,
            },
        ),
        None => None,
    }
}

pub open spec fn swept_named(
    list: Seq<ExpandedView>,
    actions: Seq<ActionView>,
    platform: Platform,
) -> Seq<ExpandedView>
    decreases actions.len(),
{
    if actions.len() == 0 {
        list
    } else {
        let before = swept_named(list, actions.drop_last(), platform);
        if action_index(before, actions.last()) < before.len() {
            before
        } else {
            match named_command(actions.last(), platform) {
                Some(command) => before.push(command),
                None => before,
            }
        }
    }
}

/// The commands before the key tables are swept.
pub open spec fn listed_commands(config: Config, mux: Option<MuxState>) -> Seq<ExpandedView> {
    let fixed = expansions(
        default_actions(config.platform, views(config.pane_encodings@)),
        config,
    ) + launch_commands(config.launch_menu@);
    match mux {
        Some(state) => fixed + mux_commands(state),
        None => fixed,
    }
}

/// All the commands of the palette and the menubar.
pub open spec fn all_commands(config: Config, map: InputMap, mux: Option<MuxState>) -> Seq<
    ExpandedView,
> {
    swept_named(
        swept_bindings(listed_commands(config, mux), bound(map.default@), config.platform),
        action_views(map.named@),
        config.platform,
    )
}

fn add_launch_commands(result: &mut Vec<ExpandedCommand>, menu: &Vec<SpawnCommand>)
    ensures
        expanded_views(final(result)@) == expanded_views(old(result)@) + launch_commands(menu@),
{
    let ghost start = expanded_views(result@);
    let mut i: usize = 0;
    assert(start + launch_commands(menu@).take(0) =~= start);
    while i < menu.len()
        invariant
            i <= menu.len(),
            expanded_views(result@) == start + launch_commands(menu@).take(i as int),
        decreases menu.len() - i,
    {
        let brief = concat2(launch_name(&menu[i]).as_str(), " (New Tab)");
        add_dynamic(
            result,
            brief,
            KeyAssignment::SpawnCommandInNewTab(menu[i].duplicate()),
            "Shell",
        );
        i += 1;
        assert(expanded_views(result@) =~= start + launch_commands(menu@).take(i as int));
    }
    assert(launch_commands(menu@).take(i as int) =~= launch_commands(menu@));
}

fn add_domain_commands(
    result: &mut Vec<ExpandedCommand>,
    domains: &Vec<Domain>,
    order: &Vec<usize>,
)
    requires
        forall|k: int| 0 <= k < order.len() ==> #[trigger] order@[k] < domains.len(),
    ensures
        expanded_views(final(result)@) == expanded_views(old(result)@) + domain_commands(
            reordered(domain_views(domains@), index_views(order@)),
        ),
{
    let ghost start = expanded_views(result@);
    let ghost sorted = reordered(domain_views(domains@), index_views(order@));
    let mut i: usize = 0;
    assert(start + domain_commands(sorted.take(0)) =~= start);
    while i < order.len()
        invariant
            i <= order.len(),
            sorted == reordered(domain_views(domains@), index_views(order@)),
            forall|k: int| 0 <= k < order.len() ==> #[trigger] order@[k] < domains.len(),
            expanded_views(result@) == start + domain_commands(sorted.take(i as int)),
        decreases order.len() - i,
    {
        let dom = &domains[order[i]];
        let ghost before = domain_commands(sorted.take(i as int));
        proof {
            assert(sorted.take(i + 1).drop_last() =~= sorted.take(i as int));
            assert(sorted.take(i + 1).last() == dom@);
        }
        if dom.spawnable {
            assert(start + before.push(domain_command(dom@)) =~= (start + before).push(
                domain_command(dom@),
            ));
            if dom.attached {
                let brief = concat3("New Tab (Domain ", dom.name.as_str(), ")");
                let command = SpawnCommand::in_domain(
                    SpawnTabDomain::DomainName(dom.name.clone()),
                );
                add_dynamic(result, brief, KeyAssignment::SpawnCommandInNewTab(command), "Shell");
            } else {
                let brief = concat2("Attach Domain ", dom.name.as_str());
                add_dynamic(result, brief, KeyAssignment::AttachDomain(dom.name.clone()), "Shell");
            }
        }
        i += 1;
    }
    assert(sorted.take(i as int) =~= sorted);
}

fn add_detach_commands(
    result: &mut Vec<ExpandedCommand>,
    domains: &Vec<Domain>,
    order: &Vec<usize>,
)
    requires
        forall|k: int| 0 <= k < order.len() ==> #[trigger] order@[k] < domains.len(),
    ensures
        expanded_views(final(result)@) == expanded_views(old(result)@) + detach_commands(
            reordered(domain_views(domains@), index_views(order@)),
        ),
{
    let ghost start = expanded_views(result@);
    let ghost sorted = reordered(domain_views(domains@), index_views(order@));
    let mut i: usize = 0;
    assert(start + detach_commands(sorted.take(0)) =~= start);
    while i < order.len()
        invariant
            i <= order.len(),
            sorted == reordered(domain_views(domains@), index_views(order@)),
            forall|k: int| 0 <= k < order.len() ==> #[trigger] order@[k] < domains.len(),
            expanded_views(result@) == start + detach_commands(sorted.take(i as int)),
        decreases order.len() - i,
    {
        let dom = &domains[order[i]];
        let ghost before = detach_commands(sorted.take(i as int));
        proof {
            assert(sorted.take(i + 1).drop_last() =~= sorted.take(i as int));
            assert(sorted.take(i + 1).last() == dom@);
        }
        if dom.attached && !same(dom.name.as_str(), "local") {
            assert(start + before.push(detach_command(dom@)) =~= (start + before).push(
                detach_command(dom@),
            ));
            let brief = concat2("Detach Domain ", dom.name.as_str());
            let domain = SpawnTabDomain::DomainName(dom.name.clone());
            add_dynamic(result, brief, KeyAssignment::DetachDomain(domain), "Shell");
        }
        i += 1;
    }
    assert(sorted.take(i as int) =~= sorted);
}

fn add_workspace_commands(
    result: &mut Vec<ExpandedCommand>,
    active: &str,
    workspaces: &Vec<String>,
)
    ensures
        expanded_views(final(result)@) == expanded_views(old(result)@) + workspace_commands(
            active@,
            views(workspaces@),
        ),
{
    let ghost start = expanded_views(result@);
    let ghost all = views(workspaces@);
    let mut i: usize = 0;
    assert(start + workspace_commands(active@, all.take(0)) =~= start);
    while i < workspaces.len()
        invariant
            i <= workspaces.len(),
            all == views(workspaces@),
            expanded_views(result@) == start + workspace_commands(active@, all.take(i as int)),
        decreases workspaces.len() - i,
    {
        let workspace = workspaces[i].as_str();
        let ghost before = workspace_commands(active@, all.take(i as int));
        proof {
            assert(all.take(i + 1).drop_last() =~= all.take(i as int));
            assert(all.take(i + 1).last() == workspace@);
        }
        if !same(workspace, active) {
            assert(start + before.push(switch_command(workspace@)) =~= (start + before).push(
                switch_command(workspace@),
            ));
            let action = KeyAssignment::SwitchToWorkspace {
                name: Some(workspace.to_owned()),
                spawn: None,
            };
            add_dynamic(result, concat2("Switch to workspace ", workspace), action, "Window");
        }
        i += 1;
    }
    assert(all.take(i as int) =~= all);
}

fn add_mux_commands(result: &mut Vec<ExpandedCommand>, mux: &MuxState)
    ensures
        expanded_views(final(result)@) == expanded_views(old(result)@) + mux_commands(*mux),
{
    let order = sort_domains(&mux.domains);
    add_domain_commands(result, &mux.domains, &order);
    add_detach_commands(result, &mux.domains, &order);
    add_workspace_commands(result, mux.active_workspace.as_str(), &mux.workspaces);
    add_dynamic(
        result,
        "Create new Workspace".to_owned(),
        KeyAssignment::SwitchToWorkspace { name: None, spawn: None },
        "Window",
    );
    assert(expanded_views(result@) =~= expanded_views(old(result)@) + mux_commands(*mux));
}

fn sweep_bindings(
    result: &mut Vec<ExpandedCommand>,
    bindings: &Vec<KeyBinding>,
    platform: Platform,
)
    ensures
        expanded_views(final(result)@) == swept_bindings(
            expanded_views(old(result)@),
            bound(bindings@),
            platform,
        ),
{
    let ghost start = expanded_views(result@);
    let mut i: usize = 0;
    while i < bindings.len()
        invariant
            i <= bindings.len(),
            expanded_views(result@) == swept_bindings(
                start,
                bound(bindings@).take(i as int),
                platform,
            ),
        decreases bindings.len() - i,
    {
        let b = &bindings[i];
        let ghost before = expanded_views(result@);
        proof {
            let now = bound(bindings@).take(i + 1);
            assert(now.drop_last() =~= bound(bindings@).take(i as int));
            assert(now.last() == b@);
        }
        if find_action(&*result, &b.action) == result.len() {
            if let Some(command) = make_bound_command(b, platform) {
                let ghost view = command@;
                result.push(command);
                assert(expanded_views(result@) =~= before.push(view));
            }
        }
        i += 1;
    }
    assert(bound(bindings@).take(i as int) =~= bound(bindings@));
}

fn sweep_named(result: &mut Vec<ExpandedCommand>, actions: &Vec<KeyAssignment>, platform: Platform)
    ensures
        expanded_views(final(result)@) == swept_named(
            expanded_views(old(result)@),
            action_views(actions@),
            platform,
        ),
{
    let ghost start = expanded_views(result@);
    let mut i: usize = 0;
    while i < actions.len()
        invariant
            i <= actions.len(),
            expanded_views(result@) == swept_named(
                start,
                action_views(actions@).take(i as int),
                platform,
            ),
        decreases actions.len() - i,
    {
        let ghost before = expanded_views(result@);
        proof {
            let now = action_views(actions@).take(i + 1);
            assert(now.drop_last() =~= action_views(actions@).take(i as int));
            assert(now.last() == actions@[i as int]@);
        }
        if find_action(&*result, &actions[i]) == result.len() {
            if let Some(def) = derive_command_from_key_assignment(&actions[i], platform) {
                let command = ExpandedCommand {
                    brief: def.brief,
                    doc: def.doc,
                    keys: Vec::new(),
                    action: actions[i].duplicate(),
                    menubar: def.menubar,
                    icon: def.icon,
                };
                assert(command@.keys =~= seq![]);
                let ghost view = command@;
                result.push(command);
                assert(expanded_views(result@) =~= before.push(view));
            }
        }
        i += 1;
    }
    assert(action_views(actions@).take(i as int) =~= action_views(actions@));
}

pub open spec fn opt_state(mux: Option<&MuxState>) -> Option<MuxState> {
    match mux {
        Some(state) => Some(*state),
        None => None,
    }
}

impl CommandDef {
    /// The commands of the palette and the menubar: the defaults, the launch
    /// menu, what the multiplexer offers, and whatever else has a key.
    pub fn actions_for_palette_and_menubar(
        config: &Config,
        map: &InputMap,
        mux: Option<&MuxState>,
    ) -> (r: Vec<ExpandedCommand>)
        requires
            config.wf(),
        ensures
            expanded_views(r@) == all_commands(*config, *map, opt_state(mux)),
    {
        let mut result = CommandDef::expanded_commands(config);
        add_launch_commands(&mut result, &config.launch_menu);
        if let Some(state) = mux {
            add_mux_commands(&mut result, state);
        }
        sweep_bindings(&mut result, &map.default, config.platform);
        sweep_named(&mut result, &map.named, config.platform);
        result
    }
}

// ---------------------------------------------------------------------------
// The plan
// ---------------------------------------------------------------------------

/// The menus that come first, in this order.
pub open spec fn preferred_titles() -> Seq<Seq<char>> {
    seq!["Kaku"@, "Shell"@, "Edit"@, "View"@, "Window"@, "Help"@]
}

/// The titles of all menus: the preferred ones, then any other where it first
/// occurs.
pub open spec fn menu_titles(commands: Seq<ExpandedView>) -> Seq<Seq<char>>
    decreases commands.len(),
{
    if commands.len() == 0 {
        preferred_titles()
    } else {
        let before = menu_titles(commands.drop_last());
        let c = commands.last();
        if c.menubar.len() == 0 || before.contains(c.menubar[0]) {
            before
        } else {
            before.push(c.menubar[0])
        }
    }
}

fn menu_order(commands: &Vec<ExpandedCommand>) -> (r: Vec<String>)
    ensures
        views(r@) == menu_titles(expanded_views(commands@)),
{
    let mut order: Vec<String> = Vec::new();
    order.push("Kaku".to_owned());
    order.push("Shell".to_owned());
    order.push("Edit".to_owned());
    order.push("View".to_owned());
    order.push("Window".to_owned());
    order.push("Help".to_owned());
    assert(views(order@) =~= preferred_titles());
    let mut i: usize = 0;
    while i < commands.len()
        invariant
            i <= commands.len(),
            views(order@) == menu_titles(expanded_views(commands@).take(i as int)),
        decreases commands.len() - i,
    {
        let cmd = &commands[i];
        let ghost before = views(order@);
        proof {
            let now = expanded_views(commands@).take(i + 1);
            assert(now.drop_last() =~= expanded_views(commands@).take(i as int));
            assert(now.last() == cmd@);
        }
        if cmd.menubar.len() > 0 {
            assert(cmd@.menubar[0] == cmd.menubar@[0]@);
            if !contains_string(&order, cmd.menubar[0].as_str()) {
                let title = cmd.menubar[0].clone();
                order.push(title);
                assert(views(order@) =~= before.push(title@));
            }
        }
        i += 1;
    }
    assert(expanded_views(commands@).take(i as int) =~= expanded_views(commands@));
    order
}

pub open spec fn kaku_rank(action: ActionView) -> int {
    match action {
        ActionView::HideApplication => 80,
        ActionView::QuitApplication => 90,
        _ => 500,
    }
}

pub open spec fn shell_rank(action: ActionView) -> int {
    match action {
        ActionView::SpawnWindow => 10,
        ActionView::SpawnTab(_) | ActionView::SpawnCommandInNewTab(_) => 20,
        ActionView::EmitEvent(name) => if name == "kaku-ai-chat"@ {
            20
        } else if name == "run-kaku-ai-config"@ {
            21
        } else if name == "kaku-launch-lazygit"@ {
            22
        } else if name == "kaku-launch-yazi"@ {
            23
        } else if name == "kaku-open-remote-files"@ {
            24
        } else {
            500
        },
        ActionView::SplitVertical(_)
        | ActionView::SplitHorizontal(_)
        | ActionView::SplitPane(_) => 30,
        ActionView::CloseCurrentTab { .. } | ActionView::CloseCurrentPane { .. } => 40,
        ActionView::RestorePreviousWindow => 42,
        ActionView::ActivateCommandPalette => 25,
        ActionView::ShowLauncher | ActionView::ShowLauncherArgs(_) => 50,
        ActionView::AttachDomain(_) => 70,
        ActionView::DetachDomain(_) => 80,
        _ => 500,
    }
}

pub open spec fn edit_rank(action: ActionView) -> int {
    match action {
        ActionView::CopyTextTo { .. } | ActionView::CopyTo(_) => 10,
        ActionView::PasteFrom(_) => 20,
        ActionView::Search(_) => 30,
        ActionView::QuickSelect => 40,
        ActionView::ClearScrollback(_) => 50,
        _ => 500,
    }
}

pub open spec fn view_rank(action: ActionView) -> int {
    match action {
        ActionView::ResetFontSize => 10,
        ActionView::IncreaseFontSize => 20,
        ActionView::DecreaseFontSize => 30,
        ActionView::ResetFontAndWindowSize => 40,
        ActionView::ScrollToTop => 50,
        ActionView::ScrollToBottom => 51,
        _ => 500,
    }
}

pub open spec fn window_rank(action: ActionView) -> int {
    match action {
        ActionView::Hide => 10,
        ActionView::ToggleFullScreen => 12,
        ActionView::CenterWindow => 13,
        ActionView::MaximizeWindow => 14,
        ActionView::ToggleAlwaysOnTop => 15,
        ActionView::ActivateWindowRelative(n) => if n == -1 {
            20
        } else if n == 1 {
            21
        } else {
            500
        },
        ActionView::ActivateWindow(_) => 22,
        ActionView::ActivateTabRelative(n) => if n == -1 {
            30
        } else if n == 1 {
            31
        } else {
            500
        },
        ActionView::ActivateLastTab => 32,
        ActionView::ShowTabNavigator => 33,
        ActionView::MoveTabRelative(n) => if n == -1 {
            40
        } else if n == 1 {
            41
        } else {
            500
        },
        ActionView::PaneSelect(select) => match select.mode {
            PaneSelectMode::Activate => 50,
            PaneSelectMode::MoveToNewTab => 51,
            PaneSelectMode::MoveToNewWindow => 52,
            _ => 500,
        },
        ActionView::TogglePaneZoomState => 60,
        ActionView::SwitchToWorkspace { .. } | ActionView::SwitchWorkspaceRelative(_) => 70,
        _ => 500,
    }
}

pub open spec fn help_rank(action: ActionView) -> int {
    match action {
        ActionView::OpenUri(uri) => if uri == "https://github.com/tw93/Kaku"@ {
            10
        } else if uri == "https://github.com/tw93/Kaku/discussions/"@ {
            20
        } else if uri == "https://github.com/tw93/Kaku/issues/"@ {
            30
        } else {
            500
        },
        ActionView::ShowDebugOverlay => 90,
        _ => 500,
    }
}

/// Where an action stands in the menu of that title.
pub open spec fn menu_rank(title: Seq<char>, action: ActionView) -> int {
    if title == "Kaku"@ {
        kaku_rank(action)
    } else if title == "Shell"@ {
        shell_rank(action)
    } else if title == "Edit"@ {
        edit_rank(action)
    } else if title == "View"@ {
        view_rank(action)
    } else if title == "Window"@ {
        window_rank(action)
    } else if title == "Help"@ {
        help_rank(action)
    } else {
        1000
    }
}

fn shell_menu_rank(action: &KeyAssignment) -> (r: u64)
    ensures
        r == shell_rank(action@),
{
    match action {
        KeyAssignment::SpawnWindow => 10,
        KeyAssignment::SpawnTab(_) | KeyAssignment::SpawnCommandInNewTab(_) => 20,
        KeyAssignment::EmitEvent(name) => if same(name.as_str(), "kaku-ai-chat") {
            20
        } else if same(name.as_str(), "run-kaku-ai-config") {
            21
        } else if same(name.as_str(), "kaku-launch-lazygit") {
            22
        } else if same(name.as_str(), "kaku-launch-yazi") {
            23
        } else if same(name.as_str(), "kaku-open-remote-files") {
            24
        } else {
            500
        },
        KeyAssignment::SplitVertical(_)
        | KeyAssignment::SplitHorizontal(_)
        | KeyAssignment::SplitPane(_) => 30,
        KeyAssignment::CloseCurrentTab { .. } | KeyAssignment::CloseCurrentPane { .. } => 40,
        KeyAssignment::RestorePreviousWindow => 42,
        KeyAssignment::ActivateCommandPalette => 25,
        KeyAssignment::ShowLauncher | KeyAssignment::ShowLauncherArgs(_) => 50,
        KeyAssignment::AttachDomain(_) => 70,
        KeyAssignment::DetachDomain(_) => 80,
        _ => 500,
    }
}

fn edit_menu_rank(action: &KeyAssignment) -> (r: u64)
    ensures
        r == edit_rank(action@),
{
    match action {
        KeyAssignment::CopyTextTo { .. } | KeyAssignment::CopyTo(_) => 10,
        KeyAssignment::PasteFrom(_) => 20,
        KeyAssignment::Search(_) => 30,
        KeyAssignment::QuickSelect => 40,
        KeyAssignment::ClearScrollback(_) => 50,
        _ => 500,
    }
}

fn view_menu_rank(action: &KeyAssignment) -> (r: u64)
    ensures
        r == view_rank(action@),
{
    match action {
        KeyAssignment::ResetFontSize => 10,
        KeyAssignment::IncreaseFontSize => 20,
        KeyAssignment::DecreaseFontSize => 30,
        KeyAssignment::ResetFontAndWindowSize => 40,
        KeyAssignment::ScrollToTop => 50,
        KeyAssignment::ScrollToBottom => 51,
        _ => 500,
    }
}

fn window_menu_rank(action: &KeyAssignment) -> (r: u64)
    ensures
        r == window_rank(action@),
{
    match action {
        KeyAssignment::Hide => 10,
        KeyAssignment::ToggleFullScreen => 12,
        KeyAssignment::CenterWindow => 13,
        KeyAssignment::MaximizeWindow => 14,
        KeyAssignment::ToggleAlwaysOnTop => 15,
        KeyAssignment::ActivateWindowRelative(n) => if *n == -1 {
            20
        } else if *n == 1 {
            21
        } else {
            500
        },
        KeyAssignment::ActivateWindow(_) => 22,
        KeyAssignment::ActivateTabRelative(n) => if *n == -1 {
            30
        } else if *n == 1 {
            31
        } else {
            500
        },
        KeyAssignment::ActivateLastTab => 32,
        KeyAssignment::ShowTabNavigator => 33,
        KeyAssignment::MoveTabRelative(n) => if *n == -1 {
            40
        } else if *n == 1 {
            41
        } else {
            500
        },
        KeyAssignment::PaneSelect(select) => match select.mode {
            PaneSelectMode::Activate => 50,
            PaneSelectMode::MoveToNewTab => 51,
            PaneSelectMode::MoveToNewWindow => 52,
            _ => 500,
        },
        KeyAssignment::TogglePaneZoomState => 60,
        KeyAssignment::SwitchToWorkspace { .. } | KeyAssignment::SwitchWorkspaceRelative(_) => 70,
        _ => 500,
    }
}

fn help_menu_rank(action: &KeyAssignment) -> (r: u64)
    ensures
        r == help_rank(action@),
{
    match action {
        KeyAssignment::OpenUri(uri) => if same(uri.as_str(), "https://github.com/tw93/Kaku") {
            10
        } else if same(uri.as_str(), "https://github.com/tw93/Kaku/discussions/") {
            20
        } else if same(uri.as_str(), "https://github.com/tw93/Kaku/issues/") {
            30
        } else {
            500
        },
        KeyAssignment::ShowDebugOverlay => 90,
        _ => 500,
    }
}

/// Where an action stands in the menu of that title.
pub fn command_rank_for_menu(title: &str, action: &KeyAssignment) -> (r: u64)
    ensures
        r == menu_rank(title@, action@),
{
    if same(title, "Kaku") {
        match action {
            KeyAssignment::HideApplication => 80,
            KeyAssignment::QuitApplication => 90,
            _ => 500,
        }
    } else if same(title, "Shell") {
        shell_menu_rank(action)
    } else if same(title, "Edit") {
        edit_menu_rank(action)
    } else if same(title, "View") {
        view_menu_rank(action)
    } else if same(title, "Window") {
        window_menu_rank(action)
    } else if same(title, "Help") {
        help_menu_rank(action)
    } else {
        1000
    }
}

/// The group of a rank within a menu: separators stand between groups.
pub open spec fn menu_group(title: Seq<char>, rank: int) -> int {
    if title == "Shell"@ {
        if rank <= 20 {
            1
        } else if rank <= 26 {
            2
        } else if rank <= 35 {
            3
        } else if rank <= 45 {
            4
        } else if rank <= 55 {
            5
        } else {
            6
        }
    } else if title == "Edit"@ {
        if rank <= 25 {
            1
        } else if rank <= 45 {
            2
        } else {
            3
        }
    } else if title == "View"@ {
        if rank <= 42 {
            1
        } else if rank <= 48 {
            2
        } else {
            3
        }
    } else if title == "Window"@ {
        if rank <= 15 {
            1
        } else if rank <= 25 {
            2
        } else if rank <= 35 {
            3
        } else if rank <= 45 {
            4
        } else if rank <= 55 {
            5
        } else if rank <= 65 {
            6
        } else {
            7
        }
    } else {
        1
    }
}

pub fn separator_group_for_menu(title: &str, rank: u64) -> (r: u8)
    ensures
        r == menu_group(title@, rank as int),
{
    if same(title, "Shell") {
        match rank {
            0..=20 => 1,  // New Window, New Tab
            21..=26 => 2,  // AI Config, Lazygit, Yazi, Remote Files, Command Palette
            27..=35 => 3,  // Split
            36..=45 => 4,  // Close
            46..=55 => 5,  // Launcher
            _ => 6,  // Attach/Detach and others
        }
    } else if same(title, "Edit") {
        match rank {
            0..=25 => 1,  // Copy, Paste
            26..=45 => 2,  // Search, QuickSelect
            _ => 3,  // Clear Scrollback
        }
    } else if same(title, "View") {
        match rank {
            0..=42 => 1,  // Font size group
            43..=48 => 2,  // Command Palette
            _ => 3,  // Scroll
        }
    } else if same(title, "Window") {
        match rank {
            0..=15 => 1,  // Hide, FullScreen
            16..=25 => 2,  // Window nav
            26..=35 => 3,  // Tab nav
            36..=45 => 4,  // Move tab
            46..=55 => 5,  // Pane select
            56..=65 => 6,  // Toggle Pane Zoom
            _ => 7,  // Workspace and others
        }
    } else {
        1
    }
}

/// Groups follow ranks: a later rank never falls into an earlier group.
pub proof fn menu_groups_follow_ranks(title: Seq<char>, a: int, b: int)
    requires
        a <= b,
    ensures
        menu_group(title, a) <= menu_group(title, b),
{
}

/// The commands of the menu of that title, in the order of the list.
pub open spec fn titled(commands: Seq<ExpandedView>, title: Seq<char>) -> Seq<ExpandedView>
    decreases commands.len(),
{
    if commands.len() == 0 {
        seq![]
    } else {
        let before = titled(commands.drop_last(), title);
        let c = commands.last();
        if c.menubar.len() > 0 && c.menubar[0] == title {
            before.push(c)
        } else {
            before
        }
    }
}

fn commands_titled(commands: &Vec<ExpandedCommand>, title: &str) -> (r: Vec<ExpandedCommand>)
    ensures
        expanded_views(r@) == titled(expanded_views(commands@), title@),
{
    let mut out: Vec<ExpandedCommand> = Vec::new();
    let mut i: usize = 0;
    assert(expanded_views(out@) =~= seq![]);
    while i < commands.len()
        invariant
            i <= commands.len(),
            expanded_views(out@) == titled(expanded_views(commands@).take(i as int), title@),
        decreases commands.len() - i,
    {
        let cmd = &commands[i];
        let ghost before = expanded_views(out@);
        proof {
            let now = expanded_views(commands@).take(i + 1);
            assert(now.drop_last() =~= expanded_views(commands@).take(i as int));
            assert(now.last() == cmd@);
        }
        if cmd.menubar.len() > 0 {
            assert(cmd@.menubar[0] == cmd.menubar@[0]@);
            if same(cmd.menubar[0].as_str(), title) {
                out.push(cmd.duplicate());
                assert(expanded_views(out@) =~= before.push(cmd@));
            }
        }
        i += 1;
    }
    assert(expanded_views(commands@).take(i as int) =~= expanded_views(commands@));
    out
}

pub open spec fn menu_key(title: Seq<char>, c: ExpandedView) -> SortKeyView {
    SortKeyView { major: menu_rank(title, c.action) as u64, minor: 0, text: c.brief }
}

pub open spec fn menu_keys(title: Seq<char>, list: Seq<ExpandedView>) -> Seq<SortKeyView> {
    list.map_values(|c: ExpandedView| menu_key(title, c))
}

/// The commands of a menu, by rank, then by label.
pub open spec fn menu_sorted(title: Seq<char>, list: Seq<ExpandedView>) -> Seq<ExpandedView> {
    reordered(list, stable_order(menu_keys(title, list)))
}

fn sort_menu(title: &str, list: &Vec<ExpandedCommand>) -> (r: Vec<ExpandedCommand>)
    ensures
        expanded_views(r@) == menu_sorted(title@, expanded_views(list@)),
{
    let mut keys: Vec<SortKey> = Vec::new();
    let mut i: usize = 0;
    while i < list.len()
        invariant
            i <= list.len(),
            keys.len() == i,
            forall|k: int| 0 <= k < i ==> #[trigger] keys@[k]@ == menu_key(title@, list@[k]@),
        decreases list.len() - i,
    {
        keys.push(
            SortKey {
                major: command_rank_for_menu(title, &list[i].action),
                minor: 0,
                text: list[i].brief.clone(),
            },
        );
        i += 1;
    }
    assert(key_views(keys@) =~= menu_keys(title@, expanded_views(list@)));
    let order = sort_order(&keys);
    assert forall|k: int| 0 <= k < order.len() implies #[trigger] order@[k] < list.len() by {
        assert(index_views(order@)[k] == order@[k]);
    }
    pick_commands(list, &order)
}

/// The shortcut that a menu item shows.
#[derive(Clone, Copy, Debug, PartialEq, Eq, Structural)]
pub struct MenuShortcut {
    pub glyph: char,
    pub shift: bool,
    pub alt: bool,
    pub ctrl: bool,
    pub command: bool,
}

/// The chords bound everywhere to `action`, in table order.
pub open spec fn located(bindings: Seq<BindingView>, action: ActionView) -> Seq<(u16, KeyCode)>
    decreases bindings.len(),
{
    if bindings.len() == 0 {
        seq![]
    } else {
        let before = located(bindings.drop_last(), action);
        if bindings.last().action == action {
            before.push((bindings.last().mods, bindings.last().key))
        } else {
            before
        }
    }
}

fn locate_app_wide(map: &InputMap, action: &KeyAssignment) -> (r: Vec<(Modifiers, KeyCode)>)
    ensures
        r@ == located(bound(map.app_wide@), action@),
{
    let mut out: Vec<(Modifiers, KeyCode)> = Vec::new();
    let mut i: usize = 0;
    while i < map.app_wide.len()
        invariant
            i <= map.app_wide.len(),
            out@ == located(bound(map.app_wide@).take(i as int), action@),
        decreases map.app_wide.len() - i,
    {
        let b = &map.app_wide[i];
        proof {
            let now = bound(map.app_wide@).take(i + 1);
            assert(now.drop_last() =~= bound(map.app_wide@).take(i as int));
            assert(now.last() == b@);
        }
        if b.action.same_as(action) {
            out.push((b.mods, b.key));
        }
        i += 1;
    }
    assert(bound(map.app_wide@).take(i as int) =~= bound(map.app_wide@));
    out
}

/// The shortcut of the preferred chord, where that chord has a character.
pub open spec fn shortcut_of(chords: Seq<(u16, KeyCode)>) -> Option<MenuShortcut> {
    if chords.len() == 0 {
        None
    } else {
        match chords[0].1.glyph {
            None => None,
            Some(glyph) => Some(
                MenuShortcut {
                    glyph,
                    shift: has_mods(chords[0].0, SHIFT),
                    alt: has_mods(chords[0].0, ALT),
                    ctrl: has_mods(chords[0].0, CTRL),
                    command: has_mods(chords[0].0, SUPER),
                },
            ),
        }
    }
}

fn menu_shortcut(map: &InputMap, action: &KeyAssignment) -> (r: Option<MenuShortcut>)
    ensures
        r == shortcut_of(by_preference(located(bound(map.app_wide@), action@))),
{
    let candidates = sort_chords(&locate_app_wide(map, action));
    if candidates.len() == 0 {
        return None;
    }
    let mods: Modifiers = candidates[0].0;
    match candidates[0].1.glyph {
        None => None,
        Some(glyph) => Some(
            MenuShortcut {
                glyph,
                shift: contains_mods(mods, SHIFT),
                alt: contains_mods(mods, ALT),
                ctrl: contains_mods(mods, CTRL),
                command: contains_mods(mods, SUPER),
            },
        ),
    }
}

/// One item of the plan.
#[derive(Debug)]
pub struct MenuItemPlan {
    /// Whether a separator is put before the item.
    pub separator: bool,
    /// The titles of the menus that lead to the item, as they show.
    pub path: Vec<String>,
    pub title: String,
    pub action: KeyAssignment,
    pub shortcut: Option<MenuShortcut>,
}

pub struct MenuItemView {
    pub separator: bool,
    pub path: Seq<Seq<char>>,
    pub title: Seq<char>,
    pub action: ActionView,
    pub shortcut: Option<MenuShortcut>,
}

impl View for MenuItemPlan {
    type V = MenuItemView;

    open spec fn view(&self) -> MenuItemView {
        MenuItemView {
            separator: self.separator,
            path: views(self.path@),
            title: self.title@,
            action: self.action@,
            shortcut: self.shortcut,
        }
    }
}

pub open spec fn plan_views(list: Seq<MenuItemPlan>) -> Seq<MenuItemView> {
    list.map_values(|i: MenuItemPlan| i@)
}

/// The titles of a path, as they show.
pub open spec fn shown_path(path: Seq<Seq<char>>, t: Translations) -> Seq<Seq<char>> {
    path.map_values(|segment: Seq<char>| localized("commands.menubar."@, segment, t))
}

fn localize_path(path: &Vec<String>, t: &Translations) -> (r: Vec<String>)
    ensures
        views(r@) == shown_path(views(path@), *t),
{
    let mut out: Vec<String> = Vec::new();
    let mut i: usize = 0;
    while i < path.len()
        invariant
            i <= path.len(),
            out.len() == i,
            forall|k: int|
                0 <= k < i ==> #[trigger] out@[k]@ == localized(
                    "commands.menubar."@,
                    path@[k]@,
                    *t,
                ),
        decreases path.len() - i,
    {
        out.push(localize_menubar_segment(path[i].as_str(), t));
        i += 1;
    }
    assert(views(out@) =~= shown_path(views(path@), *t));
    out
}

/// The group of the last top-level item, where there is one.
pub open spec fn last_group(title: Seq<char>, list: Seq<ExpandedView>) -> Option<int>
    decreases list.len(),
{
    if list.len() == 0 {
        None
    } else if list.last().menubar.len() == 1 {
        Some(menu_group(title, menu_rank(title, list.last().action)))
    } else {
        last_group(title, list.drop_last())
    }
}

/// Whether a separator comes before `c`, which follows `before`: `c` is a
/// top-level item of another group than the last one.
pub open spec fn starts_group(title: Seq<char>, before: Seq<ExpandedView>, c: ExpandedView) -> bool {
    &&& c.menubar.len() == 1
    &&& last_group(title, before) matches Some(g) && g != menu_group(
        title,
        menu_rank(title, c.action),
    )
}

/// The plan of one menu, from its sorted commands.
pub open spec fn menu_plan(
    title: Seq<char>,
    list: Seq<ExpandedView>,
    map: InputMap,
    t: Translations,
) -> Seq<MenuItemView> {
    Seq::new(
        list.len(),
        |i: int|
            MenuItemView {
                separator: starts_group(title, list.take(i), list[i]),
                path: shown_path(list[i].menubar, t),
                title: list[i].brief,
                action: list[i].action,
                shortcut: shortcut_of(
                    by_preference(located(bound(map.app_wide@), list[i].action)),
                ),
            },
    )
}

fn plan_menu(title: &str, list: &Vec<ExpandedCommand>, map: &InputMap, t: &Translations) -> (r: Vec<
    MenuItemPlan,
>)
    ensures
        plan_views(r@) == menu_plan(title@, expanded_views(list@), *map, *t),
{
    let mut out: Vec<MenuItemPlan> = Vec::new();
    let mut prev_group: Option<u8> = None;
    let mut i: usize = 0;
    let ghost all = expanded_views(list@);
    let ghost target = menu_plan(title@, all, *map, *t);
    while i < list.len()
        invariant
            i <= list.len(),
            all == expanded_views(list@),
            target == menu_plan(title@, all, *map, *t),
            out.len() == i,
            forall|k: int| 0 <= k < i ==> #[trigger] out@[k]@ == target[k],
            match prev_group {
                Some(g) => last_group(title@, all.take(i as int)) == Some(g as int),
                None => last_group(title@, all.take(i as int)) is None,
            },
        decreases list.len() - i,
    {
        let cmd = &list[i];
        proof {
            assert(all.take(i + 1).drop_last() =~= all.take(i as int));
            assert(all.take(i + 1).last() == cmd@);
        }
        let rank = command_rank_for_menu(title, &cmd.action);
        let group = separator_group_for_menu(title, rank);
        let mut separator = false;
        if cmd.menubar.len() == 1 {
            if let Some(pg) = prev_group {
                separator = pg != group;
            }
            prev_group = Some(group);
        }
        out.push(
            MenuItemPlan {
                separator,
                path: localize_path(&cmd.menubar, t),
                title: cmd.brief.clone(),
                action: cmd.action.duplicate(),
                shortcut: menu_shortcut(map, &cmd.action),
            },
        );
        i += 1;
    }
    assert(plan_views(out@) =~= target);
    out
}

/// The plans of the first `n` menus, one after the other.
pub open spec fn menubar_plan(
    commands: Seq<ExpandedView>,
    titles: Seq<Seq<char>>,
    map: InputMap,
    t: Translations,
) -> Seq<MenuItemView>
    decreases titles.len(),
{
    if titles.len() == 0 {
        seq![]
    } else {
        let title = titles.last();
        menubar_plan(commands, titles.drop_last(), map, t) + menu_plan(
            title,
            menu_sorted(title, titled(commands, title)),
            map,
            t,
        )
    }
}

/// One of the fixed items that open the application menu.
#[derive(Debug)]
pub enum ApplicationItem {
    Separator,
    /// Raises an event when it is chosen.
    Event { title: String, event: String, checked: Option<bool> },
    /// Opens the settings window.
    Settings { title: String },
    /// The services menu of the system.
    Services { title: String },
}

pub enum ApplicationItemView {
    Separator,
    Event { title: Seq<char>, event: Seq<char>, checked: Option<bool> },
    Settings { title: Seq<char> },
    Services { title: Seq<char> },
}

impl View for ApplicationItem {
    type V = ApplicationItemView;

    open spec fn view(&self) -> ApplicationItemView {
        match *self {
            ApplicationItem::Separator => ApplicationItemView::Separator,
            ApplicationItem::Event { title, event, checked } => ApplicationItemView::Event {
                title: title@,
                event: event@,
                checked,
            },
            ApplicationItem::Settings { title } => ApplicationItemView::Settings { title: title@ },
            ApplicationItem::Services { title } => ApplicationItemView::Services { title: title@ },
        }
    }
}

pub open spec fn application_views(list: Seq<ApplicationItem>) -> Seq<ApplicationItemView> {
    list.map_values(|i: ApplicationItem| i@)
}

/// A release tag without the letters that lead it.
pub open spec fn bare_version(tag: Seq<char>) -> Seq<char>
    decreases tag.len(),
{
    if tag.len() > 0 && (tag[0] == 'v' || tag[0] == 'V') {
        bare_version(tag.drop_first())
    } else {
        tag
    }
}

fn trim_version_tag(tag: &str) -> (r: String)
    ensures
        r@ == bare_version(tag@),
{
    let cs = chars_of(tag);
    let mut from: usize = 0;
    assert(tag@.skip(0) =~= tag@);
    while from < cs.len() && (cs[from] == 'v' || cs[from] == 'V')
        invariant
            from <= cs.len(),
            cs@ == tag@,
            bare_version(tag@) == bare_version(tag@.skip(from as int)),
        decreases cs.len() - from,
    {
        assert(tag@.skip(from as int).drop_first() =~= tag@.skip(from + 1));
        from += 1;
    }
    assert(tag@.skip(from as int) =~= tag@.subrange(from as int, tag@.len() as int));
    string_of_range(&cs, from, cs.len())
}

pub open spec fn event_item(title: Seq<char>, event: Seq<char>) -> ApplicationItemView {
    ApplicationItemView::Event { title, event, checked: None }
}

pub open spec fn update_item(staged: Option<Seq<char>>) -> Seq<ApplicationItemView> {
    match staged {
        Some(tag) => seq![
            event_item("Restart to Update ("@ + bare_version(tag) + ")"@, "restart-to-update"@),
        ],
        None => seq![],
    }
}

/// The fixed items of the application menu, before its commands.
pub open spec fn application_menu(
    version: Seq<char>,
    staged: Option<Seq<char>>,
    is_default_terminal: Option<bool>,
    t: Translations,
) -> Seq<ApplicationItemView> {
    seq![
        event_item("Kaku V"@ + version, "run-kaku-cli"@),
        ApplicationItemView::Separator,
        ApplicationItemView::Settings {
            title: translated(t.entries@, "commands.menu.settings"@),
        },
        event_item(
            translated(t.entries@, "commands.menu.check_for_updates"@),
            "run-kaku-update"@,
        ),
    ] + update_item(staged) + seq![
        ApplicationItemView::Event {
            title: translated(t.entries@, "commands.menu.set_as_default_terminal"@),
            event: "set-default-terminal"@,
            checked: is_default_terminal,
        },
        ApplicationItemView::Separator,
        ApplicationItemView::Services {
            title: translated(t.entries@, "commands.menu.services"@),
        },
        ApplicationItemView::Separator,
    ]
}

fn add_item(list: &mut Vec<ApplicationItem>, item: ApplicationItem)
    ensures
        application_views(final(list)@) == application_views(old(list)@).push(item@),
{
    list.push(item);
    assert(application_views(list@) =~= application_views(old(list)@).push(item@));
}

/// The fixed items of the application menu: about, settings, updates (with a
/// restart item where an update is staged), the default terminal, services.
pub fn application_menu_items(
    version: &str,
    staged: Option<&str>,
    is_default_terminal: Option<bool>,
    t: &Translations,
) -> (r: Vec<ApplicationItem>)
    ensures
        application_views(r@) == application_menu(
            version@,
            match staged {
                Some(tag) => Some(tag@),
                None => None,
            },
            is_default_terminal,
            *t,
        ),
{
    let mut list: Vec<ApplicationItem> = Vec::new();
    assert(application_views(list@) =~= Seq::empty());
    add_item(
        &mut list,
        ApplicationItem::Event {
            title: concat2("Kaku V", version),
            event: "run-kaku-cli".to_owned(),
            checked: None,
        },
    );
    add_item(&mut list, ApplicationItem::Separator);
    add_item(
        &mut list,
        ApplicationItem::Settings { title: t.lookup("commands.menu.settings") },
    );
    add_item(
        &mut list,
        ApplicationItem::Event {
            title: t.lookup("commands.menu.check_for_updates"),
            event: "run-kaku-update".to_owned(),
            checked: None,
        },
    );
    if let Some(tag) = staged {
        add_item(
            &mut list,
            ApplicationItem::Event {
                title: concat3("Restart to Update (", trim_version_tag(tag).as_str(), ")"),
                event: "restart-to-update".to_owned(),
                checked: None,
            },
        );
    }
    add_item(
        &mut list,
        ApplicationItem::Event {
            title: t.lookup("commands.menu.set_as_default_terminal"),
            event: "set-default-terminal".to_owned(),
            checked: is_default_terminal,
        },
    );
    add_item(&mut list, ApplicationItem::Separator);
    add_item(
        &mut list,
        ApplicationItem::Services { title: t.lookup("commands.menu.services") },
    );
    add_item(&mut list, ApplicationItem::Separator);
    assert(application_views(list@) =~= application_menu(
        version@,
        match staged {
            Some(tag) => Some(tag@),
            None => None,
        },
        is_default_terminal,
        *t,
    ));
    list
}

/// An item that is in the menubar already.
#[derive(Debug)]
pub struct MenuSlot {
    pub path: Vec<String>,
    pub action: KeyAssignment,
}

/// Whether the slot is where the plan would look for an item of this path and
/// action: the first such slot.
pub open spec fn reused_by(slots: Seq<MenuSlot>, i: int, item: MenuItemView) -> bool {
    &&& views(slots[i].path@) == item.path
    &&& slots[i].action@ == item.action
    &&& forall|j: int|
        0 <= j < i ==> !(views((#[trigger] slots[j]).path@) == item.path && slots[j].action@
            == item.action)
}

/// Whether the plan leaves the slot without a use, so that it is removed.
pub open spec fn stale(slots: Seq<MenuSlot>, i: int, plan: Seq<MenuItemView>) -> bool {
    forall|k: int| 0 <= k < plan.len() ==> !reused_by(slots, i, #[trigger] plan[k])
}

fn is_reused(slots: &Vec<MenuSlot>, i: usize, item: &MenuItemPlan) -> (r: bool)
    requires
        i < slots.len(),
    ensures
        r == reused_by(slots@, i as int, item@),
{
    if !same_strings(&slots[i].path, &item.path) || !slots[i].action.same_as(&item.action) {
        return false;
    }
    let mut j: usize = 0;
    while j < i
        invariant
            j <= i < slots.len(),
            forall|k: int|
                0 <= k < j ==> !(views((#[trigger] slots@[k]).path@) == item@.path
                    && slots@[k].action@ == item@.action),
        decreases i - j,
    {
        if same_strings(&slots[j].path, &item.path) && slots[j].action.same_as(&item.action) {
            assert(views(slots@[j as int].path@) == item@.path);
            return false;
        }
        j += 1;
    }
    true
}

fn is_stale(slots: &Vec<MenuSlot>, i: usize, plan: &Vec<MenuItemPlan>) -> (r: bool)
    requires
        i < slots.len(),
    ensures
        r == stale(slots@, i as int, plan_views(plan@)),
{
    let mut k: usize = 0;
    while k < plan.len()
        invariant
            k <= plan.len(),
            i < slots.len(),
            forall|m: int|
                0 <= m < k ==> !reused_by(slots@, i as int, #[trigger] plan_views(plan@)[m]),
        decreases plan.len() - k,
    {
        assert(plan_views(plan@)[k as int] == plan@[k as int]@);
        if is_reused(slots, i, &plan[k]) {
            return false;
        }
        k += 1;
    }
    true
}

/// The items to remove from the menubar once the plan is carried out: those
/// that it did not update, in menu order.
pub fn stale_menu_items(slots: &Vec<MenuSlot>, plan: &Vec<MenuItemPlan>) -> (r: Vec<usize>)
    ensures
        forall|i: int|
            0 <= i < slots.len() ==> (r@.contains(i as usize) <==> #[trigger] stale(
                slots@,
                i,
                plan_views(plan@),
            )),
        forall|a: int, b: int| 0 <= a < b < r.len() ==> #[trigger] r@[a] < #[trigger] r@[b],
        forall|a: int| 0 <= a < r.len() ==> #[trigger] r@[a] < slots.len(),
{
    let mut out: Vec<usize> = Vec::new();
    let mut i: usize = 0;
    while i < slots.len()
        invariant
            i <= slots.len(),
            forall|k: int|
                0 <= k < i ==> (out@.contains(k as usize) <==> #[trigger] stale(
                    slots@,
                    k,
                    plan_views(plan@),
                )),
            forall|a: int, b: int|
                0 <= a < b < out.len() ==> #[trigger] out@[a] < #[trigger] out@[b],
            forall|a: int| 0 <= a < out.len() ==> #[trigger] out@[a] < i,
        decreases slots.len() - i,
    {
        let ghost before = out@;
        let gone = is_stale(slots, i, plan);
        if gone {
            out.push(i);
            assert(out@[out.len() - 1] == i);
        }
        assert forall|k: int| 0 <= k < i + 1 implies (out@.contains(k as usize)
            <==> #[trigger] stale(slots@, k, plan_views(plan@))) by {
            if k < i {
                if before.contains(k as usize) {
                    let m = choose|m: int| 0 <= m < before.len() && before[m] == k as usize;
                    assert(out@[m] == k as usize);
                }
                if out@.contains(k as usize) {
                    let m = choose|m: int| 0 <= m < out@.len() && out@[m] == k as usize;
                    assert(before[m] == k as usize);
                }
            }
        }
        i += 1;
    }
    out
}

impl CommandDef {
    /// The plan by which the menubar is rebuilt from the current config and
    /// key bindings: for each menu its items in order, with separators between
    /// groups, localized titles and shortcuts.
    pub fn recreate_menubar(config: &Config, map: &InputMap, mux: Option<&MuxState>) -> (r: Vec<
        MenuItemPlan,
    >)
        requires
            config.wf(),
        ensures
            plan_views(r@) == menubar_plan(
                all_commands(*config, *map, opt_state(mux)),
                menu_titles(all_commands(*config, *map, opt_state(mux))),
                *map,
                config.translations,
            ),
    {
        let commands = CommandDef::actions_for_palette_and_menubar(config, map, mux);
        let order = menu_order(&commands);
        let ghost all = expanded_views(commands@);
        let ghost titles = menu_titles(all);
        let mut plan: Vec<MenuItemPlan> = Vec::new();
        let mut i: usize = 0;
        assert(plan_views(plan@) =~= seq![]);
        while i < order.len()
            invariant
                i <= order.len(),
                all == expanded_views(commands@),
                titles == views(order@),
                plan_views(plan@) == menubar_plan(
                    all,
                    titles.take(i as int),
                    *map,
                    config.translations,
                ),
            decreases order.len() - i,
        {
            let title = order[i].as_str();
            let ghost before = plan_views(plan@);
            proof {
                assert(titles.take(i + 1).drop_last() =~= titles.take(i as int));
                assert(titles.take(i + 1).last() == title@);
            }
            let chosen = commands_titled(&commands, title);
            let sorted = sort_menu(title, &chosen);
            let mut items = plan_menu(title, &sorted, map, &config.translations);
            let ghost added = plan_views(items@);
            plan.append(&mut items);
            assert(plan_views(plan@) =~= before + added);
            i += 1;
        }
        assert(titles.take(i as int) =~= titles);
        plan
    }
}

// ---------------------------------------------------------------------------
// Laws
// ---------------------------------------------------------------------------

/// No menu occurs twice in the menubar, and the preferred menus come first.
pub proof fn menu_titles_are_distinct(commands: Seq<ExpandedView>)
    ensures
        menu_titles(commands).no_duplicates(),
        preferred_titles().is_prefix_of(menu_titles(commands)),
    decreases commands.len(),
{
    reveal_strlit("Kaku");
    reveal_strlit("Shell");
    reveal_strlit("Edit");
    reveal_strlit("View");
    reveal_strlit("Window");
    reveal_strlit("Help");
    let p = preferred_titles();
    if commands.len() == 0 {
        assert(p[0].len() == 4 && p[1].len() == 5 && p[2].len() == 4 && p[3].len() == 4
            && p[4].len() == 6 && p[5].len() == 4);
        assert(p[0][0] == 'K' && p[2][0] == 'E' && p[3][0] == 'V' && p[5][0] == 'H');
        assert(p.subrange(0, p.len() as int) =~= p);
    } else {
        menu_titles_are_distinct(commands.drop_last());
        let before = menu_titles(commands.drop_last());
        let after = menu_titles(commands);
        assert(after.subrange(0, p.len() as int) =~= before.subrange(0, p.len() as int));
    }
}

proof fn lemma_title_listed(commands: Seq<ExpandedView>, k: int)
    requires
        0 <= k < commands.len(),
        commands[k].menubar.len() > 0,
    ensures
        menu_titles(commands).contains(commands[k].menubar[0]),
    decreases commands.len(),
{
    let rest = commands.drop_last();
    let before = menu_titles(rest);
    let title = commands[k].menubar[0];
    if k < rest.len() {
        lemma_title_listed(rest, k);
        let i = choose|i: int| 0 <= i < before.len() && before[i] == title;
        assert(menu_titles(commands)[i] == title);
    } else if !before.contains(title) {
        assert(menu_titles(commands)[before.len() as int] == title);
    }
}

proof fn lemma_titled_holds(commands: Seq<ExpandedView>, k: int)
    requires
        0 <= k < commands.len(),
        commands[k].menubar.len() > 0,
    ensures
        titled(commands, commands[k].menubar[0]).contains(commands[k]),
    decreases commands.len(),
{
    let rest = commands.drop_last();
    let title = commands[k].menubar[0];
    let before = titled(rest, title);
    if k < rest.len() {
        lemma_titled_holds(rest, k);
        let i = choose|i: int| 0 <= i < before.len() && before[i] == commands[k];
        assert(titled(commands, title)[i] == commands[k]);
    } else {
        assert(titled(commands, title)[before.len() as int] == commands[k]);
    }
}

proof fn lemma_menu_sorted_holds(title: Seq<char>, list: Seq<ExpandedView>, c: ExpandedView)
    requires
        list.contains(c),
    ensures
        menu_sorted(title, list).contains(c),
{
    let keys = menu_keys(title, list);
    stable_order_sorts(keys);
    let order = stable_order(keys);
    let v = choose|v: int| 0 <= v < list.len() && list[v] == c;
    assert(order.contains(v));
    let i = choose|i: int| 0 <= i < order.len() && order[i] == v;
    assert(menu_sorted(title, list)[i] == c);
}

/// Whether an item stands for the command, in its menu and under its title.
pub open spec fn stands_for(item: MenuItemView, c: ExpandedView, t: Translations) -> bool {
    &&& item.action == c.action
    &&& item.title == c.brief
    &&& item.path == shown_path(c.menubar, t)
}

/// Whether the plan holds an item for the command.
pub open spec fn plans(plan: Seq<MenuItemView>, c: ExpandedView, t: Translations) -> bool {
    exists|i: int| 0 <= i < plan.len() && stands_for(#[trigger] plan[i], c, t)
}

proof fn lemma_plan_covers(
    commands: Seq<ExpandedView>,
    titles: Seq<Seq<char>>,
    map: InputMap,
    t: Translations,
    k: int,
)
    requires
        0 <= k < commands.len(),
        commands[k].menubar.len() > 0,
        titles.contains(commands[k].menubar[0]),
    ensures
        plans(menubar_plan(commands, titles, map, t), commands[k], t),
    decreases titles.len(),
{
    let c = commands[k];
    let title = titles.last();
    let rest = titles.drop_last();
    let head = menubar_plan(commands, rest, map, t);
    let sorted = menu_sorted(title, titled(commands, title));
    let tail = menu_plan(title, sorted, map, t);
    let whole = menubar_plan(commands, titles, map, t);
    if title == c.menubar[0] {
        lemma_titled_holds(commands, k);
        lemma_menu_sorted_holds(title, titled(commands, title), c);
        let i = choose|i: int| 0 <= i < sorted.len() && sorted[i] == c;
        assert(whole[head.len() + i] == tail[i]);
    } else {
        let at = choose|at: int| 0 <= at < titles.len() && titles[at] == c.menubar[0];
        assert(rest[at] == c.menubar[0]);
        lemma_plan_covers(commands, rest, map, t, k);
        let i = choose|i: int| 0 <= i < head.len() && stands_for(#[trigger] head[i], c, t);
        assert(whole[i] == head[i]);
    }
}

/// Every command that names a menu has its item in the menubar, under the path
/// that it names.
pub proof fn menubar_shows_every_menu_command(
    commands: Seq<ExpandedView>,
    map: InputMap,
    t: Translations,
    k: int,
)
    requires
        0 <= k < commands.len(),
        commands[k].menubar.len() > 0,
    ensures
        plans(menubar_plan(commands, menu_titles(commands), map, t), commands[k], t),
{
    lemma_title_listed(commands, k);
    lemma_plan_covers(commands, menu_titles(commands), map, t, k);
}

/// Within a menu the items stand by rank, so that the groups stand together.
pub proof fn menu_items_stand_by_rank(title: Seq<char>, list: Seq<ExpandedView>, i: int, j: int)
    requires
        0 <= i < j < menu_sorted(title, list).len(),
    ensures
        menu_rank(title, menu_sorted(title, list)[i].action) <= menu_rank(
            title,
            menu_sorted(title, list)[j].action,
        ),
        menu_group(title, menu_rank(title, menu_sorted(title, list)[i].action)) <= menu_group(
            title,
            menu_rank(title, menu_sorted(title, list)[j].action),
        ),
{
    let keys = menu_keys(title, list);
    stable_order_sorts(keys);
    let order = stable_order(keys);
    assert(precedes(keys, order[i], order[j]));
}

/// The commands of the key tables come after all others, and no action gains a
/// second command from them.
pub proof fn swept_commands_are_new(
    list: Seq<ExpandedView>,
    bindings: Seq<BindingView>,
    platform: Platform,
)
    ensures
        list.is_prefix_of(swept_bindings(list, bindings, platform)),
        forall|i: int, j: int|
            0 <= i < j < swept_bindings(list, bindings, platform).len() && j >= list.len()
                ==> (#[trigger] swept_bindings(list, bindings, platform)[i]).action
                != (#[trigger] swept_bindings(list, bindings, platform)[j]).action,
    decreases bindings.len(),
{
    if bindings.len() == 0 {
        assert(list.subrange(0, list.len() as int) =~= list);
    } else {
        let rest = bindings.drop_last();
        swept_commands_are_new(list, rest, platform);
        let before = swept_bindings(list, rest, platform);
        let after = swept_bindings(list, bindings, platform);
        lemma_action_index(before, bindings.last().action);
        assert(after.subrange(0, list.len() as int) =~= before.subrange(0, list.len() as int));
        assert forall|i: int, j: int| 0 <= i < j < after.len() && j >= list.len() implies (
        #[trigger] after[i]).action != (#[trigger] after[j]).action by {
            if j < before.len() {
                assert(before[i].action != before[j].action);
            }
        }
    }
}

} // verus!
