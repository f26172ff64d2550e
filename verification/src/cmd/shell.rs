//! What a shell is told when accounts are chosen for it, when they are let go, and when its directory
//! belongs to another project; and letting go of the global accounts.
use vstd::prelude::*;

use super::accounts::{CommandError, ResolvedAccount};
use super::project::{BindingView, ProjectBinding};
use super::scope::{
    LOCAL_STATE_ENV, PROJECT_FILE_ENV, PROJECT_STATE_ENV, pairs_of, serialize_state, state_text,
};
use super::session::{export_text, export_var, unset_text, unset_var};
use crate::account::{CurrentAccountRecord, CurrentView, current_of, lists_known};
use crate::path::{expand_user_path_from, user_path};
use crate::plugin::catalog::LoadedManifest;
use crate::plugin::{AuxFile, Manifest};
use crate::registry::{Registry, RegistryView, active_alias, consistent, with_active};
use crate::text::{append_all, copy_all, copy_opt, join2, join3, same};
use crate::text_map::{TextMap, sorted_items};

verus! {

/// What a shell asks for.
pub enum ShellCommand {
    Use(ShellUseArgs),
    SyncProject,
}

pub struct ShellUseArgs {
    pub selector: Option<String>,
    pub plugin: Option<String>,
    pub off: bool,
    pub json: bool,
    pub scope: Option<String>,
}

/// What is done for a shell: accounts are let go, one is found and used, or those of the project are.
pub enum ShellPlan {
    Off { plugin: Option<String> },
    Find { selector: Option<String> },
    SyncProject,
}

pub enum ShellPlanView {
    Off { plugin: Option<Seq<char>> },
    Find { selector: Option<Seq<char>> },
    SyncProject,
}

impl DeepView for ShellPlan {
    type V = ShellPlanView;

    open spec fn deep_view(&self) -> ShellPlanView {
        match *self {
            ShellPlan::Off { plugin } => ShellPlanView::Off { plugin: plugin.deep_view() },
            ShellPlan::Find { selector } => ShellPlanView::Find { selector: selector.deep_view() },
            ShellPlan::SyncProject => ShellPlanView::SyncProject,
        }
    }
}

/// What is done for a shell.
pub fn run(command: &ShellCommand) -> (r: Result<ShellPlan, CommandError>)
    ensures
        match *command {
            ShellCommand::SyncProject => r matches Ok(ShellPlan::SyncProject),
            ShellCommand::Use(args) => if args.off && args.selector is Some {
                r matches Err(e) && e.message@
                    == "Shell off does not take ACCOUNT; use --plugin when needed"@
            } else if args.off {
                r matches Ok(plan) && plan.deep_view() == (ShellPlanView::Off {
                    plugin: args.plugin.deep_view(),
                })
            } else {
                r matches Ok(plan) && plan.deep_view() == (ShellPlanView::Find {
                    selector: args.selector.deep_view(),
                })
            },
        },
{
    match command {
        ShellCommand::SyncProject => Ok(ShellPlan::SyncProject),
        ShellCommand::Use(args) => if args.off {
            if args.selector.is_some() {
                Err(
                    CommandError {
                        message:
                            "Shell off does not take ACCOUNT; use --plugin when needed".to_owned(),
                    },
                )
            } else {
                Ok(ShellPlan::Off { plugin: copy_opt(&args.plugin) })
            }
        } else {
            Ok(ShellPlan::Find { selector: copy_opt(&args.selector) })
        },
    }
}

/// The line that sets a variable to some accounts, or takes it away where there are none.
pub open spec fn state_line(name: Seq<char>, state: Map<Seq<char>, Seq<char>>) -> Seq<char> {
    if state == Map::<Seq<char>, Seq<char>>::empty() {
        unset_text(name)
    } else {
        export_text(name, state_text(sorted_items(state)))
    }
}

fn write_state(name: &str, state: &TextMap<String>) -> (r: String)
    ensures
        r@ == state_line(name@, state.deep_view()),
{
    if state.is_empty() {
        unset_var(name)
    } else {
        export_var(name, serialize_state(state).as_str())
    }
}

/// The lines that make a shell use one more account. `activation` is what the account itself needs.
pub fn use_local(local: TextMap<String>, account: &ResolvedAccount, activation: String) -> (r: Vec<
    String,
>)
    ensures
        r.deep_view() == seq![
            activation@,
            export_text(
                LOCAL_STATE_ENV@,
                state_text(
                    sorted_items(local.deep_view().insert(account.plugin_id@, account.alias@)),
                ),
            ),
        ],
{
    let mut local = local;
    local.insert(account.plugin_id.clone(), account.alias.clone());
    let ghost first = activation@;
    let mut lines: Vec<String> = Vec::new();
    lines.push(activation);
    let second = export_var(LOCAL_STATE_ENV, serialize_state(&local).as_str());
    let ghost s = second@;
    lines.push(second);
    assert(lines.deep_view() == seq![first, s]);
    lines
}

// ---------------------------------------------------------------------------------------------
// Letting go of the accounts of a shell
// ---------------------------------------------------------------------------------------------
/// The accounts of a shell and of its project, and the lines so far.
pub struct Clearing {
    pub local: Map<Seq<char>, Seq<char>>,
    pub project: Map<Seq<char>, Seq<char>>,
    pub lines: Seq<Seq<char>>,
}

/// Letting go of the accounts of some plugins, one after the other. `variables` are the variables that
/// point a plugin to an account, where they are known.
pub open spec fn clear_each(
    start: Clearing,
    plugins: Seq<Seq<char>>,
    variables: Map<Seq<char>, Seq<char>>,
) -> Clearing
    decreases plugins.len(),
{
    if plugins.len() == 0 {
        start
    } else {
        let before = clear_each(start, plugins.drop_last(), variables);
        let p = plugins.last();
        if before.local.contains_key(p) {
            Clearing {
                local: before.local.remove(p),
                project: before.project.remove(p),
                lines: if variables.contains_key(p) {
                    before.lines.push(unset_text(variables[p]))
                } else {
                    before.lines
                },
            }
        } else {
            before
        }
    }
}

/// The plugins whose accounts are let go: one, or all that the shell uses.
pub open spec fn plugins_to_clear(local: Map<Seq<char>, Seq<char>>, plugin: Option<Seq<char>>) -> Seq<
    Seq<char>,
> {
    match plugin {
        Some(p) => seq![p],
        None => sorted_items(local).map_values(|e: (Seq<char>, Seq<char>)| e.0),
    }
}

/// The lines that make a shell let go of its accounts.
pub open spec fn clear_lines(
    local: Map<Seq<char>, Seq<char>>,
    project: Map<Seq<char>, Seq<char>>,
    plugin: Option<Seq<char>>,
    variables: Map<Seq<char>, Seq<char>>,
) -> Seq<Seq<char>> {
    let end = clear_each(
        Clearing { local, project, lines: seq![] },
        plugins_to_clear(local, plugin),
        variables,
    );
    end.lines.push(state_line(LOCAL_STATE_ENV@, end.local)).push(
        state_line(PROJECT_STATE_ENV@, end.project),
    )
}

/// The lines that make a shell let go of the account of a plugin, or of all its accounts.
pub fn clear_local(
    local: TextMap<String>,
    project_state: TextMap<String>,
    plugin: &Option<String>,
    variables: &TextMap<String>,
) -> (r: Vec<String>)
    ensures
        r.deep_view() == clear_lines(
            local.deep_view(),
            project_state.deep_view(),
            plugin.deep_view(),
            variables.deep_view(),
        ),
{
    let ghost start = Clearing {
        local: local.deep_view(),
        project: project_state.deep_view(),
        lines: seq![],
    };
    let plugins: Vec<String> = match plugin {
        Some(p) => {
            let mut one: Vec<String> = Vec::new();
            one.push(p.clone());
            assert(one.deep_view() == seq![p@]);
            one
        },
        None => local.keys(),
    };
    let ghost all = plugins.deep_view();
    assert(all == plugins_to_clear(local.deep_view(), plugin.deep_view()));
    let mut local = local;
    let mut project_state = project_state;
    let mut lines: Vec<String> = Vec::new();
    let mut i: usize = 0;
    assert(lines.deep_view() == Seq::<Seq<char>>::empty());
    while i < plugins.len()
        invariant
            i <= plugins@.len(),
            all == plugins.deep_view(),
            ({
                let now = clear_each(start, all.take(i as int), variables.deep_view());
                &&& now.local == local.deep_view()
                &&& now.project == project_state.deep_view()
                &&& now.lines == lines.deep_view()
            }),
        decreases plugins@.len() - i,
    {
        assert(all.take(i + 1).drop_last() == all.take(i as int));
        assert(all[i as int] == plugins@[i as int]@);
        let p = &plugins[i];
        if local.remove(p.as_str()).is_some() {
            match variables.get(p.as_str()) {
                Some(variable) => {
                    let ghost before = lines.deep_view();
                    lines.push(unset_var(variable.as_str()));
                    assert(lines.deep_view() == before.push(unset_text(variable@)));
                },
                None => {},
            }
            let _ = project_state.remove(p.as_str());
        } else {
            assert(local.deep_view() =~= clear_each(
                start,
                all.take(i as int),
                variables.deep_view(),
            ).local);
        }
        i = i + 1;
    }
    assert(all.take(all.len() as int) == all);
    let ghost before = lines.deep_view();
    let first = write_state(LOCAL_STATE_ENV, &local);
    let ghost f = first@;
    lines.push(first);
    assert(lines.deep_view() == before.push(f));
    let second = write_state(PROJECT_STATE_ENV, &project_state);
    let ghost s = second@;
    lines.push(second);
    assert(lines.deep_view() == before.push(f).push(s));
    lines
}

// ---------------------------------------------------------------------------------------------
// The accounts of a project
// ---------------------------------------------------------------------------------------------
/// The plugins whose accounts a shell lets go: those of the last project that this one does not bind,
/// unless the shell itself has chosen an account.
pub open spec fn to_deactivate(
    current: Seq<(Seq<char>, Seq<char>)>,
    desired: Map<Seq<char>, Seq<char>>,
    local: Map<Seq<char>, Seq<char>>,
) -> Seq<Seq<char>>
    decreases current.len(),
{
    if current.len() == 0 {
        seq![]
    } else {
        let before = to_deactivate(current.drop_last(), desired, local);
        let p = current.last().0;
        if !desired.contains_key(p) && !local.contains_key(p) {
            before.push(p)
        } else {
            before
        }
    }
}

/// The accounts that a shell takes up: those that this project binds and that it does not use yet,
/// unless the shell itself has chosen an account.
pub open spec fn to_activate(
    desired: Seq<(Seq<char>, Seq<char>)>,
    current: Map<Seq<char>, Seq<char>>,
    local: Map<Seq<char>, Seq<char>>,
) -> Seq<(Seq<char>, Seq<char>)>
    decreases desired.len(),
{
    if desired.len() == 0 {
        seq![]
    } else {
        let before = to_activate(desired.drop_last(), current, local);
        let (p, alias) = desired.last();
        if local.contains_key(p) || (current.contains_key(p) && current[p] == alias) {
            before
        } else {
            before.push((p, alias))
        }
    }
}

/// What changes for a shell whose directory belongs to a project.
pub struct SyncPlan {
    pub deactivate: Vec<String>,
    pub activate: Vec<(String, String)>,
}

/// What changes for a shell whose directory belongs to a project that binds the accounts `desired`.
pub fn plan_sync(
    local: &TextMap<String>,
    current_project: &TextMap<String>,
    desired: &TextMap<String>,
) -> (r: SyncPlan)
    ensures
        r.deactivate.deep_view() == to_deactivate(
            sorted_items(current_project.deep_view()),
            desired.deep_view(),
            local.deep_view(),
        ),
        pairs_of(r.activate@) == to_activate(
            sorted_items(desired.deep_view()),
            current_project.deep_view(),
            local.deep_view(),
        ),
{
    let mut deactivate: Vec<String> = Vec::new();
    let n = current_project.len();
    let ghost items = current_project.items();
    let mut i: usize = 0;
    assert(deactivate.deep_view() == to_deactivate(
        items.take(0),
        desired.deep_view(),
        local.deep_view(),
    ));
    while i < n
        invariant
            i <= n,
            n == items.len(),
            items == current_project.items(),
            deactivate.deep_view() == to_deactivate(
                items.take(i as int),
                desired.deep_view(),
                local.deep_view(),
            ),
        decreases n - i,
    {
        assert(items.take(i + 1).drop_last() == items.take(i as int));
        let p = current_project.key_at(i);
        if !desired.contains_key(p.as_str()) && !local.contains_key(p.as_str()) {
            let ghost before = deactivate.deep_view();
            deactivate.push(p.clone());
            assert(deactivate.deep_view() == before.push(p@));
        }
        i = i + 1;
    }
    assert(items.take(n as int) == items);

    let mut activate: Vec<(String, String)> = Vec::new();
    let m = desired.len();
    let ghost wanted = desired.items();
    let mut k: usize = 0;
    assert(pairs_of(activate@) == to_activate(
        wanted.take(0),
        current_project.deep_view(),
        local.deep_view(),
    ));
    while k < m
        invariant
            k <= m,
            m == wanted.len(),
            wanted == desired.items(),
            pairs_of(activate@) == to_activate(
                wanted.take(k as int),
                current_project.deep_view(),
                local.deep_view(),
            ),
        decreases m - k,
    {
        assert(wanted.take(k + 1).drop_last() == wanted.take(k as int));
        let p = desired.key_at(k);
        let alias = desired.value_at(k);
        let active = match current_project.get(p.as_str()) {
            Some(now) => same(now.as_str(), alias.as_str()),
            None => false,
        };
        if !local.contains_key(p.as_str()) && !active {
            let ghost before = activate@;
            activate.push((p.clone(), alias.clone()));
            assert(pairs_of(activate@) == pairs_of(before).push((p@, alias@)));
        }
        k = k + 1;
    }
    assert(wanted.take(m as int) == wanted);
    SyncPlan { deactivate, activate }
}

/// The lines for a shell whose directory belongs to a project: those that let go of accounts, those
/// that take accounts up, and those that keep in mind what was done.
pub open spec fn sync_text(
    deactivations: Seq<Seq<char>>,
    activations: Seq<Seq<char>>,
    binding: Option<BindingView>,
) -> Seq<Seq<char>> {
    let desired = match binding {
        Some(b) => b.accounts,
        None => Map::empty(),
    };
    deactivations + activations + if desired == Map::<Seq<char>, Seq<char>>::empty() {
        seq![unset_text(PROJECT_STATE_ENV@), unset_text(PROJECT_FILE_ENV@)]
    } else {
        seq![
            export_text(PROJECT_STATE_ENV@, state_text(sorted_items(desired))),
            export_text(PROJECT_FILE_ENV@, binding->0.path),
        ]
    }
}

/// The lines for a shell whose directory belongs to a project.
pub fn sync_lines(
    deactivations: &Vec<String>,
    activations: &Vec<String>,
    binding: &Option<ProjectBinding>,
) -> (r: Vec<String>)
    ensures
        r.deep_view() == sync_text(
            deactivations.deep_view(),
            activations.deep_view(),
            binding.deep_view(),
        ),
{
    let mut lines = copy_all(deactivations);
    append_all(&mut lines, activations);
    let mut tail: Vec<String> = Vec::new();
    match binding {
        Some(b) => if b.accounts.is_empty() {
            tail.push(unset_var(PROJECT_STATE_ENV));
            tail.push(unset_var(PROJECT_FILE_ENV));
            assert(tail.deep_view() == seq![
                unset_text(PROJECT_STATE_ENV@),
                unset_text(PROJECT_FILE_ENV@),
            ]);
        } else {
            tail.push(export_var(PROJECT_STATE_ENV, serialize_state(&b.accounts).as_str()));
            tail.push(export_var(PROJECT_FILE_ENV, b.path.as_str()));
            assert(tail.deep_view() == seq![
                export_text(PROJECT_STATE_ENV@, state_text(sorted_items(b.accounts.deep_view()))),
                export_text(PROJECT_FILE_ENV@, b.path@),
            ]);
        },
        None => {
            tail.push(unset_var(PROJECT_STATE_ENV));
            tail.push(unset_var(PROJECT_FILE_ENV));
            assert(tail.deep_view() == seq![
                unset_text(PROJECT_STATE_ENV@),
                unset_text(PROJECT_FILE_ENV@),
            ]);
        },
    }
    append_all(&mut lines, &tail);
    lines
}

/// A shell that already uses what the project binds has nothing to change.
pub proof fn a_second_sync_changes_nothing(
    desired: Map<Seq<char>, Seq<char>>,
    local: Map<Seq<char>, Seq<char>>,
)
    requires
        desired.dom().finite(),
    ensures
        to_deactivate(sorted_items(desired), desired, local) == Seq::<Seq<char>>::empty(),
        to_activate(sorted_items(desired), desired, local) == Seq::<(Seq<char>, Seq<char>)>::empty(),
{
    crate::text_map::sorted_items_exist(desired);
    let items = sorted_items(desired);
    crate::text_map::lemma_map_of(items);
    assert forall|i: int| 0 <= i < items.len() implies desired.contains_key(#[trigger] items[i].0)
        && desired[items[i].0] == items[i].1 by {
        assert(crate::text_map::map_of(items).contains_key(items[i].0));
    }
    lemma_in_sync(items, desired, local);
}

proof fn lemma_in_sync(
    items: Seq<(Seq<char>, Seq<char>)>,
    desired: Map<Seq<char>, Seq<char>>,
    local: Map<Seq<char>, Seq<char>>,
)
    requires
        forall|i: int|
            0 <= i < items.len() ==> desired.contains_key(#[trigger] items[i].0)
                && desired[items[i].0] == items[i].1,
    ensures
        to_deactivate(items, desired, local) == Seq::<Seq<char>>::empty(),
        to_activate(items, desired, local) == Seq::<(Seq<char>, Seq<char>)>::empty(),
    decreases items.len(),
{
    if items.len() > 0 {
        let front = items.drop_last();
        assert forall|i: int| 0 <= i < front.len() implies desired.contains_key(
            #[trigger] front[i].0,
        ) && desired[front[i].0] == front[i].1 by {
            assert(front[i] == items[i]);
        }
        lemma_in_sync(front, desired, local);
        assert(desired.contains_key(items[items.len() - 1].0));
    }
}

// ---------------------------------------------------------------------------------------------
// Letting go of the global accounts
// ---------------------------------------------------------------------------------------------
/// A global account that was let go.
pub struct GlobalClearReport {
    pub plugin_id: String,
    pub previous_alias: Option<String>,
}

pub struct GlobalClearView {
    pub plugin_id: Seq<char>,
    pub previous_alias: Option<Seq<char>>,
}

impl DeepView for GlobalClearReport {
    type V = GlobalClearView;

    open spec fn deep_view(&self) -> GlobalClearView {
        GlobalClearView {
            plugin_id: self.plugin_id@,
            previous_alias: self.previous_alias.deep_view(),
        }
    }
}

/// The plugins that have a global account.
pub open spec fn active_plugins(current: Seq<CurrentView>) -> Seq<Seq<char>>
    decreases current.len(),
{
    if current.len() == 0 {
        seq![]
    } else if current.last().alias is Some {
        active_plugins(current.drop_last()).push(current.last().plugin_id)
    } else {
        active_plugins(current.drop_last())
    }
}

/// The plugins whose global account is let go: one, or all that have one; there has to be one.
pub fn global_plugins(plugin: &Option<String>, current: &Vec<CurrentAccountRecord>) -> (r: Result<
    Vec<String>,
    CommandError,
>)
    ensures
        ({
            let plugins = match plugin.deep_view() {
                Some(p) => seq![p],
                None => active_plugins(current.deep_view()),
            };
            match r {
                Ok(v) => v.deep_view() == plugins && plugins.len() > 0,
                Err(e) => plugins.len() == 0 && e.message@
                    == "No global active account was found; pass --plugin to clear a specific plugin"@,
            }
        }),
{
    let mut plugins: Vec<String> = Vec::new();
    match plugin {
        Some(p) => {
            plugins.push(p.clone());
            assert(plugins.deep_view() == seq![p@]);
        },
        None => {
            let ghost all = current.deep_view();
            let mut i: usize = 0;
            assert(plugins.deep_view() == active_plugins(all.take(0)));
            while i < current.len()
                invariant
                    i <= current@.len(),
                    all == current.deep_view(),
                    plugins.deep_view() == active_plugins(all.take(i as int)),
                decreases current@.len() - i,
            {
                assert(all.take(i + 1).drop_last() == all.take(i as int));
                assert(all[i as int] == current@[i as int].deep_view());
                if current[i].alias.is_some() {
                    let ghost before = plugins.deep_view();
                    plugins.push(current[i].plugin_id.clone());
                    assert(plugins.deep_view() == before.push(all[i as int].plugin_id));
                }
                i = i + 1;
            }
            assert(all.take(all.len() as int) == all);
        },
    }
    assert(plugins.deep_view().len() == plugins@.len());
    if plugins.len() == 0 {
        Err(
            CommandError {
                message:
                    "No global active account was found; pass --plugin to clear a specific plugin".to_owned(),
            },
        )
    } else {
        Ok(plugins)
    }
}

/// The registry once no account of some plugins is active.
pub open spec fn deactivated(registry: RegistryView, plugins: Seq<Seq<char>>) -> RegistryView
    decreases plugins.len(),
{
    if plugins.len() == 0 {
        registry
    } else {
        with_active(deactivated(registry, plugins.drop_last()), plugins.last(), None)
    }
}

/// What was active of some plugins, as one after the other is let go.
pub open spec fn global_reports(registry: RegistryView, plugins: Seq<Seq<char>>) -> Seq<
    GlobalClearView,
>
    decreases plugins.len(),
{
    if plugins.len() == 0 {
        seq![]
    } else {
        global_reports(registry, plugins.drop_last()).push(
            GlobalClearView {
                plugin_id: plugins.last(),
                previous_alias: active_alias(
                    deactivated(registry, plugins.drop_last()),
                    plugins.last(),
                ),
            },
        )
    }
}

/// Lets no account of some plugins be active.
pub fn clear_global(registry: &mut Registry, plugins: &Vec<String>) -> (r: Vec<GlobalClearReport>)
    ensures
        final(registry).deep_view() == deactivated(old(registry).deep_view(), plugins.deep_view()),
        r.deep_view() == global_reports(old(registry).deep_view(), plugins.deep_view()),
{
    let ghost start = registry.deep_view();
    let ghost all = plugins.deep_view();
    let mut reports: Vec<GlobalClearReport> = Vec::new();
    let mut i: usize = 0;
    assert(reports.deep_view() == global_reports(start, all.take(0)));
    while i < plugins.len()
        invariant
            i <= plugins@.len(),
            all == plugins.deep_view(),
            registry.deep_view() == deactivated(start, all.take(i as int)),
            reports.deep_view() == global_reports(start, all.take(i as int)),
        decreases plugins@.len() - i,
    {
        assert(all.take(i + 1).drop_last() == all.take(i as int));
        assert(all[i as int] == plugins@[i as int]@);
        let ghost before = reports.deep_view();
        let report = GlobalClearReport {
            plugin_id: plugins[i].clone(),
            previous_alias: registry.active_alias(plugins[i].as_str()),
        };
        let ghost v = report.deep_view();
        reports.push(report);
        assert(reports.deep_view() == before.push(v));
        registry.set_active(plugins[i].as_str(), None);
        i = i + 1;
    }
    assert(all.take(all.len() as int) == all);
    reports
}

/// Letting go of global accounts keeps the registry consistent.
pub proof fn clearing_keeps_the_registry_consistent(
    registry: RegistryView,
    plugins: Seq<Seq<char>>,
)
    requires
        consistent(registry),
    ensures
        consistent(deactivated(registry, plugins)),
        deactivated(registry, plugins).accounts == registry.accounts,
        forall|i: int|
            0 <= i < plugins.len() ==> active_alias(
                deactivated(registry, plugins),
                #[trigger] plugins[i],
            ) is None,
    decreases plugins.len(),
{
    if plugins.len() > 0 {
        let front = plugins.drop_last();
        clearing_keeps_the_registry_consistent(registry, front);
        let before = deactivated(registry, front);
        let after = deactivated(registry, plugins);
        assert forall|p: Seq<char>| (#[trigger] active_alias(after, p)) is Some implies
            crate::registry::has_account(after, p, active_alias(after, p)->0) by {
            assert(active_alias(before, p) == active_alias(after, p));
        }
        assert forall|p: Seq<char>, a: Seq<char>|
            #![trigger after.accounts[p][a]]
            crate::registry::has_account(after, p, a) implies after.accounts[p][a].alias == a by {
            assert(crate::registry::has_account(before, p, a));
            assert(before.accounts[p][a].alias == a);
        }
        assert forall|i: int| 0 <= i < plugins.len() implies active_alias(
            after,
            #[trigger] plugins[i],
        ) is None by {
            if i < front.len() {
                assert(front[i] == plugins[i]);
                assert(active_alias(before, front[i]) is None);
            }
        }
    }
}

proof fn lemma_active_plugins(current: Seq<CurrentView>, i: int)
    requires
        0 <= i < current.len(),
        current[i].alias is Some,
    ensures
        active_plugins(current).contains(current[i].plugin_id),
    decreases current.len(),
{
    let front = active_plugins(current.drop_last());
    if i == current.len() - 1 {
        assert(active_plugins(current)[front.len() as int] == current[i].plugin_id);
    } else {
        lemma_active_plugins(current.drop_last(), i);
        let k = choose|k: int| 0 <= k < front.len() && front[k] == current[i].plugin_id;
        assert(active_plugins(current)[k] == current[i].plugin_id);
    }
}

proof fn lemma_deactivated(registry: RegistryView, plugins: Seq<Seq<char>>, p: Seq<char>)
    ensures
        active_alias(deactivated(registry, plugins), p) is Some ==> active_alias(registry, p) is Some
            && !plugins.contains(p),
        deactivated(registry, plugins).accounts == registry.accounts,
    decreases plugins.len(),
{
    if plugins.len() > 0 {
        let front = plugins.drop_last();
        lemma_deactivated(registry, front, p);
        if plugins.contains(p) && p != plugins.last() {
            let k = choose|k: int| 0 <= k < plugins.len() && plugins[k] == p;
            assert(front[k] == p);
        }
    }
}

/// Letting go of the global accounts without naming a plugin lets go of all of them: where `current`
/// lists the active account of each known plugin, no plugin has an active account afterwards. The
/// saved accounts stay.
pub proof fn letting_go_of_all_leaves_none_active(
    registry: RegistryView,
    plugins: Seq<LoadedManifest>,
    current: Seq<CurrentView>,
)
    requires
        lists_known(current.map_values(|c: CurrentView| c.plugin_id), registry, plugins, None),
        forall|i: int|
            0 <= i < current.len() ==> #[trigger] current[i] == current_of(
                registry,
                current[i].plugin_id,
            ),
    ensures
        ({
            let after = deactivated(registry, active_plugins(current));
            &&& forall|p: Seq<char>| (#[trigger] active_alias(after, p)) is None
            &&& after.accounts == registry.accounts
        }),
{
    let ids = current.map_values(|c: CurrentView| c.plugin_id);
    let after = deactivated(registry, active_plugins(current));
    lemma_deactivated(registry, active_plugins(current), seq![]);
    assert forall|p: Seq<char>| (#[trigger] active_alias(after, p)) is None by {
        lemma_deactivated(registry, active_plugins(current), p);
        if active_alias(registry, p) is Some {
            assert(ids.contains(p));
            let i = choose|i: int| 0 <= i < ids.len() && ids[i] == p;
            assert(current[i] == current_of(registry, current[i].plugin_id));
            lemma_active_plugins(current, i);
        }
    }
}

/// A line for a global account that was let go.
pub fn global_clear_line(report: &GlobalClearReport) -> (r: String)
    ensures
        r@ == match report.deep_view().previous_alias {
            Some(alias) => "Cleared global live credentials for "@ + report.plugin_id@
                + " (previous alias: "@ + alias + ")"@,
            None => "Cleared global live credentials for "@ + report.plugin_id@,
        },
{
    let start = join2("Cleared global live credentials for ", report.plugin_id.as_str());
    match &report.previous_alias {
        Some(alias) => join2(
            join3(start.as_str(), " (previous alias: ", alias.as_str()).as_str(),
            ")",
        ),
        None => start,
    }
}

/// The places of the live files of a plugin, other than its credential.
pub open spec fn live_paths_of(files: Seq<AuxFile>, home: Seq<char>) -> Seq<Seq<char>> {
    files.map_values(|f: AuxFile| user_path(f.path@, home))
}

/// The places of the live files of a plugin, other than its credential: they go with a global account.
pub fn live_paths(manifest: &Manifest, home_dir: &str) -> (r: Vec<String>)
    ensures
        r.deep_view() == live_paths_of(manifest.aux_files@, home_dir@),
{
    let ghost all = live_paths_of(manifest.aux_files@, home_dir@);
    let mut paths: Vec<String> = Vec::new();
    let mut i: usize = 0;
    while i < manifest.aux_files.len()
        invariant
            i <= manifest.aux_files@.len(),
            all == live_paths_of(manifest.aux_files@, home_dir@),
            paths.deep_view() == all.take(i as int),
        decreases manifest.aux_files@.len() - i,
    {
        let ghost before = paths.deep_view();
        paths.push(expand_user_path_from(manifest.aux_files[i].path.as_str(), home_dir));
        assert(paths.deep_view() == before.push(all[i as int]));
        assert(all.take(i + 1) == all.take(i as int).push(all[i as int]));
        i = i + 1;
    }
    assert(all.take(all.len() as int) == all);
    paths
}

} // verus!
