//! The accounts of a shell: what entering a project changes, and what letting go of a choice leaves.
use vstd::prelude::*;

use crate::account::CurrentView;
use crate::cmd::project::BindingView;
use crate::cmd::scope::state_text;
use crate::cmd::session::export_text;
use crate::cmd::shell::{
    Clearing, active_plugins, clear_each, clear_lines, deactivated, global_reports, live_paths_of,
    plugins_to_clear, sync_text, to_activate, to_deactivate,
};
use crate::path::user_path;
use crate::plugin::AuxFile;
use crate::registry::{RegistryView, active_alias};
use crate::text::text_lt;
use crate::text_map::{lemma_map_of, map_of, sorted_items, sorted_items_exist, strictly_sorted};

verus! {

// ---------------------------------------------------------------------------------------------
// Entering a project
// ---------------------------------------------------------------------------------------------
proof fn lemma_let_go(
    items: Seq<(Seq<char>, Seq<char>)>,
    desired: Map<Seq<char>, Seq<char>>,
    local: Map<Seq<char>, Seq<char>>,
)
    requires
        strictly_sorted(items),
    ensures
        ({
            let gone = to_deactivate(items, desired, local);
            &&& forall|p: Seq<char>|
                #![trigger gone.contains(p)]
                gone.contains(p) <==> (map_of(items).contains_key(p) && !desired.contains_key(p)
                    && !local.contains_key(p))
            &&& forall|i: int, j: int|
                0 <= i < j < gone.len() ==> text_lt(#[trigger] gone[i], #[trigger] gone[j])
        }),
    decreases items.len(),
{
    let gone = to_deactivate(items, desired, local);
    lemma_map_of(items);
    if items.len() > 0 {
        let rest = items.drop_last();
        let key = items.last().0;
        assert forall|i: int, j: int| 0 <= i < j < rest.len() implies text_lt(
            #[trigger] rest[i].0,
            #[trigger] rest[j].0,
        ) by {
            assert(text_lt(items[i].0, items[j].0));
        }
        lemma_let_go(rest, desired, local);
        lemma_map_of(rest);
        let before = to_deactivate(rest, desired, local);
        assert forall|p: Seq<char>| #![trigger gone.contains(p)] gone.contains(p) <==> (map_of(
            items,
        ).contains_key(p) && !desired.contains_key(p) && !local.contains_key(p)) by {
            assert(map_of(items).contains_key(p) <==> (map_of(rest).contains_key(p) || p == key));
            if gone.contains(p) {
                let k = choose|k: int| 0 <= k < gone.len() && gone[k] == p;
                if k < before.len() {
                    assert(before[k] == p);
                    assert(before.contains(p));
                }
            }
            if before.contains(p) {
                let k = choose|k: int| 0 <= k < before.len() && before[k] == p;
                assert(gone[k] == p);
            }
            if p == key && !desired.contains_key(p) && !local.contains_key(p) {
                assert(gone[gone.len() - 1] == p);
            }
            if map_of(rest).contains_key(p) && !desired.contains_key(p) && !local.contains_key(p) {
                assert(before.contains(p));
            }
        }
        assert forall|i: int, j: int| 0 <= i < j < gone.len() implies text_lt(
            #[trigger] gone[i],
            #[trigger] gone[j],
        ) by {
            if j == before.len() {
                assert(gone[i] == before[i]);
                assert(before.contains(before[i]));
                assert(map_of(rest).contains_key(before[i]));
                let m = choose|m: int| 0 <= m < rest.len() && #[trigger] rest[m].0 == before[i];
                assert(text_lt(items[m].0, items[items.len() - 1].0));
            } else {
                assert(text_lt(before[i], before[j]));
            }
        }
    }
}

proof fn lemma_taken_up(
    items: Seq<(Seq<char>, Seq<char>)>,
    current: Map<Seq<char>, Seq<char>>,
    local: Map<Seq<char>, Seq<char>>,
)
    requires
        strictly_sorted(items),
    ensures
        ({
            let up = to_activate(items, current, local);
            &&& forall|p: Seq<char>, a: Seq<char>|
                #![trigger up.contains((p, a))]
                up.contains((p, a)) <==> (map_of(items).contains_key(p) && map_of(items)[p] == a
                    && !local.contains_key(p) && !(current.contains_key(p) && current[p] == a))
            &&& forall|i: int, j: int|
                0 <= i < j < up.len() ==> text_lt(#[trigger] up[i].0, #[trigger] up[j].0)
        }),
    decreases items.len(),
{
    let up = to_activate(items, current, local);
    lemma_map_of(items);
    if items.len() > 0 {
        let rest = items.drop_last();
        let key = items.last().0;
        assert forall|i: int, j: int| 0 <= i < j < rest.len() implies text_lt(
            #[trigger] rest[i].0,
            #[trigger] rest[j].0,
        ) by {
            assert(text_lt(items[i].0, items[j].0));
        }
        lemma_taken_up(rest, current, local);
        lemma_map_of(rest);
        if map_of(rest).contains_key(key) {
            let m = choose|m: int| 0 <= m < rest.len() && #[trigger] rest[m].0 == key;
            assert(text_lt(items[m].0, items[items.len() - 1].0));
            crate::text::lemma_text_lt_irreflexive(key);
        }
        let before = to_activate(rest, current, local);
        assert(map_of(items) == map_of(rest).insert(key, items.last().1));
        assert forall|p: Seq<char>, a: Seq<char>| #![trigger up.contains((p, a))] up.contains(
            (p, a),
        ) <==> (map_of(items).contains_key(p) && map_of(items)[p] == a && !local.contains_key(p)
            && !(current.contains_key(p) && current[p] == a)) by {
            if up.contains((p, a)) {
                let k = choose|k: int| 0 <= k < up.len() && up[k] == (p, a);
                if k < before.len() {
                    assert(before[k] == (p, a));
                    assert(before.contains((p, a)));
                }
            }
            if before.contains((p, a)) {
                let k = choose|k: int| 0 <= k < before.len() && before[k] == (p, a);
                assert(up[k] == (p, a));
            }
            if p == key && a == items.last().1 && !local.contains_key(p) && !(current.contains_key(p)
                && current[p] == a) {
                assert(up[up.len() - 1] == (p, a));
            }
        }
        assert forall|i: int, j: int| 0 <= i < j < up.len() implies text_lt(
            #[trigger] up[i].0,
            #[trigger] up[j].0,
        ) by {
            if j == before.len() {
                assert(up[i] == before[i]);
                assert(before.contains((before[i].0, before[i].1)));
                assert(map_of(rest).contains_key(before[i].0));
                let m = choose|m: int| 0 <= m < rest.len() && #[trigger] rest[m].0 == before[i].0;
                assert(text_lt(items[m].0, items[items.len() - 1].0));
            } else {
                assert(text_lt(before[i].0, before[j].0));
            }
        }
    }
}

/// Entering a directory lets go of exactly the accounts that the last project bound, that this one does
/// not bind, and that the shell did not choose by itself. They are let go in the order of the plugins.
pub proof fn what_is_no_longer_bound_is_let_go(
    local: Map<Seq<char>, Seq<char>>,
    current: Map<Seq<char>, Seq<char>>,
    desired: Map<Seq<char>, Seq<char>>,
    p: Seq<char>,
)
    requires
        current.dom().finite(),
    ensures
        ({
            let gone = to_deactivate(sorted_items(current), desired, local);
            &&& gone.contains(p) <==> (current.contains_key(p) && !desired.contains_key(p)
                && !local.contains_key(p))
            &&& forall|i: int, j: int|
                0 <= i < j < gone.len() ==> text_lt(#[trigger] gone[i], #[trigger] gone[j])
        }),
{
    sorted_items_exist(current);
    lemma_let_go(sorted_items(current), desired, local);
}

/// Entering a directory takes up exactly the accounts that its project binds, that the last project did
/// not bind to the same alias, and for whose plugin the shell did not choose one by itself.
pub proof fn what_is_newly_bound_is_taken_up(
    local: Map<Seq<char>, Seq<char>>,
    current: Map<Seq<char>, Seq<char>>,
    desired: Map<Seq<char>, Seq<char>>,
    p: Seq<char>,
    alias: Seq<char>,
)
    requires
        desired.dom().finite(),
    ensures
        ({
            let up = to_activate(sorted_items(desired), current, local);
            &&& up.contains((p, alias)) <==> (desired.contains_key(p) && desired[p] == alias
                && !local.contains_key(p) && !(current.contains_key(p) && current[p] == alias))
            &&& forall|i: int, j: int|
                0 <= i < j < up.len() ==> text_lt(#[trigger] up[i].0, #[trigger] up[j].0)
        }),
{
    sorted_items_exist(desired);
    lemma_taken_up(sorted_items(desired), current, local);
}

/// No account is both let go of and taken up, and a plugin that the shell chose for is left alone.
pub proof fn a_choice_of_the_shell_is_left_alone(
    local: Map<Seq<char>, Seq<char>>,
    current: Map<Seq<char>, Seq<char>>,
    desired: Map<Seq<char>, Seq<char>>,
    p: Seq<char>,
    alias: Seq<char>,
)
    requires
        current.dom().finite(),
        desired.dom().finite(),
    ensures
        ({
            let gone = to_deactivate(sorted_items(current), desired, local);
            let up = to_activate(sorted_items(desired), current, local);
            &&& !(gone.contains(p) && up.contains((p, alias)))
            &&& local.contains_key(p) ==> !gone.contains(p) && !up.contains((p, alias))
        }),
{
    what_is_no_longer_bound_is_let_go(local, current, desired, p);
    what_is_newly_bound_is_taken_up(local, current, desired, p, alias);
}

/// What a shell runs on entering a directory: first what lets go, then what takes up, then what
/// remembers the project, or forgets the last one where nothing is bound.
pub proof fn letting_go_comes_before_taking_up(
    gone: Seq<Seq<char>>,
    up: Seq<Seq<char>>,
    binding: Option<BindingView>,
)
    ensures
        ({
            let lines = sync_text(gone, up, binding);
            let n = (gone.len() + up.len()) as int;
            let nothing = binding is None || binding->0.accounts == Map::<
                Seq<char>,
                Seq<char>,
            >::empty();
            &&& lines.len() == n + 2
            &&& forall|i: int| 0 <= i < gone.len() ==> lines[i] == gone[i]
            &&& forall|i: int|
                0 <= i < up.len() ==> lines[gone.len() + i] == #[trigger] up[i]
            &&& nothing ==> lines[n] == "unset "@ + "ASWITCH_PROJECT_STATE"@ && lines[n + 1]
                == "unset "@ + "ASWITCH_PROJECT_FILE"@
            &&& !nothing ==> lines[n] == export_text(
                "ASWITCH_PROJECT_STATE"@,
                state_text(sorted_items(binding->0.accounts)),
            ) && lines[n + 1] == export_text("ASWITCH_PROJECT_FILE"@, binding->0.path)
        }),
{
}

// ---------------------------------------------------------------------------------------------
// Letting go of a choice
// ---------------------------------------------------------------------------------------------
/// Whether a line takes out the variable of one of the given plugins that the shell chose for.
pub open spec fn takes_out_one_of(
    line: Seq<char>,
    local: Map<Seq<char>, Seq<char>>,
    plugins: Seq<Seq<char>>,
    variables: Map<Seq<char>, Seq<char>>,
) -> bool {
    exists|p: Seq<char>|
        local.contains_key(p) && variables.contains_key(p) && plugins.contains(p) && line
            == "unset "@ + #[trigger] variables[p]
}

/// Letting go of the choices for some plugins takes exactly those out of what the shell remembers, takes
/// the same out of what it remembers of the project, and takes out the variables that pointed to them.
pub proof fn only_what_is_named_is_let_go(
    local: Map<Seq<char>, Seq<char>>,
    project: Map<Seq<char>, Seq<char>>,
    plugins: Seq<Seq<char>>,
    variables: Map<Seq<char>, Seq<char>>,
)
    ensures
        ({
            let end = clear_each(Clearing { local, project, lines: seq![] }, plugins, variables);
            &&& forall|p: Seq<char>| #[trigger]
                end.local.contains_key(p) <==> (local.contains_key(p) && !plugins.contains(p))
            &&& forall|p: Seq<char>|
                end.local.contains_key(p) ==> #[trigger] end.local[p] == local[p]
            &&& forall|p: Seq<char>| #[trigger]
                end.project.contains_key(p) <==> (project.contains_key(p) && !(plugins.contains(p)
                    && local.contains_key(p)))
            &&& forall|p: Seq<char>|
                end.project.contains_key(p) ==> #[trigger] end.project[p] == project[p]
            &&& forall|p: Seq<char>|
                #![trigger variables[p]]
                plugins.contains(p) && local.contains_key(p) && variables.contains_key(p)
                    ==> end.lines.contains("unset "@ + variables[p])
            &&& forall|k: int|
                0 <= k < end.lines.len() ==> takes_out_one_of(
                    #[trigger] end.lines[k],
                    local,
                    plugins,
                    variables,
                )
        }),
    decreases plugins.len(),
{
    let end = clear_each(Clearing { local, project, lines: seq![] }, plugins, variables);
    if plugins.len() > 0 {
        let rest = plugins.drop_last();
        let q = plugins.last();
        only_what_is_named_is_let_go(local, project, rest, variables);
        let before = clear_each(Clearing { local, project, lines: seq![] }, rest, variables);
        assert forall|p: Seq<char>| plugins.contains(p) <==> (#[trigger] rest.contains(p) || p
            == q) by {
            if plugins.contains(p) {
                let k = choose|k: int| 0 <= k < plugins.len() && plugins[k] == p;
                if k < rest.len() {
                    assert(rest[k] == p);
                }
            }
            if rest.contains(p) {
                let k = choose|k: int| 0 <= k < rest.len() && rest[k] == p;
                assert(plugins[k] == p);
            }
            assert(plugins[plugins.len() - 1] == q);
        }
        assert forall|p: Seq<char>| #[trigger] end.local.contains_key(p) <==> (local.contains_key(p)
            && !plugins.contains(p)) by {
            assert(rest.contains(p) || !rest.contains(p));
            assert(before.local.contains_key(p) <==> (local.contains_key(p) && !rest.contains(p)));
        }
        assert forall|p: Seq<char>| #[trigger] end.project.contains_key(p) <==> (
        project.contains_key(p) && !(plugins.contains(p) && local.contains_key(p))) by {
            assert(rest.contains(p) || !rest.contains(p));
            assert(before.project.contains_key(p) <==> (project.contains_key(p) && !(rest.contains(p)
                && local.contains_key(p))));
            assert(before.local.contains_key(q) <==> (local.contains_key(q) && !rest.contains(q)));
        }
        assert forall|p: Seq<char>|
            #![trigger variables[p]]
            plugins.contains(p) && local.contains_key(p) && variables.contains_key(
                p,
            ) implies end.lines.contains("unset "@ + variables[p]) by {
            assert(rest.contains(p) || p == q);
            if rest.contains(p) {
                let k = choose|k: int|
                    0 <= k < before.lines.len() && before.lines[k] == "unset "@ + variables[p];
                assert(end.lines[k] == "unset "@ + variables[p]);
            } else {
                assert(before.local.contains_key(q));
                assert(end.lines[end.lines.len() - 1] == "unset "@ + variables[p]);
            }
        }
        assert forall|k: int| 0 <= k < end.lines.len() implies takes_out_one_of(
            #[trigger] end.lines[k],
            local,
            plugins,
            variables,
        ) by {
            if k < before.lines.len() {
                assert(end.lines[k] == before.lines[k]);
                let p = choose|p: Seq<char>|
                    local.contains_key(p) && variables.contains_key(p) && rest.contains(p)
                        && before.lines[k] == "unset "@ + #[trigger] variables[p];
                assert(takes_out_one_of(before.lines[k], local, rest, variables));
                assert(rest.contains(p));
                assert(plugins.contains(p));
                assert(end.lines[k] == "unset "@ + variables[p]);
            } else {
                assert(before.local.contains_key(q));
                assert(plugins[plugins.len() - 1] == q);
                assert(end.lines[k] == "unset "@ + variables[q]);
            }
        }
    }
}

/// Where a plugin is named, it alone is let go of; where none is, all that the shell chose are.
pub proof fn the_named_plugin_or_all_are_let_go(
    local: Map<Seq<char>, Seq<char>>,
    plugin: Option<Seq<char>>,
    p: Seq<char>,
)
    requires
        local.dom().finite(),
    ensures
        plugins_to_clear(local, plugin).contains(p) <==> (match plugin {
            Some(named) => p == named,
            None => local.contains_key(p),
        }),
{
    let all = plugins_to_clear(local, plugin);
    match plugin {
        Some(named) => {
            assert(all[0] == named);
        },
        None => {
            sorted_items_exist(local);
            let items = sorted_items(local);
            lemma_map_of(items);
            if local.contains_key(p) {
                let k = choose|k: int| 0 <= k < items.len() && #[trigger] items[k].0 == p;
                assert(all[k] == p);
            }
            if all.contains(p) {
                let k = choose|k: int| 0 <= k < all.len() && all[k] == p;
                assert(items[k].0 == p);
                assert(map_of(items).contains_key(p));
            }
        },
    }
}

/// After letting go, the shell is told what it still remembers of its own choices and then of the
/// project; what has become empty is taken out.
pub proof fn what_is_left_is_remembered(
    local: Map<Seq<char>, Seq<char>>,
    project: Map<Seq<char>, Seq<char>>,
    plugin: Option<Seq<char>>,
    variables: Map<Seq<char>, Seq<char>>,
)
    ensures
        ({
            let end = clear_each(
                Clearing { local, project, lines: seq![] },
                plugins_to_clear(local, plugin),
                variables,
            );
            let lines = clear_lines(local, project, plugin, variables);
            let n = end.lines.len() as int;
            let none = Map::<Seq<char>, Seq<char>>::empty();
            &&& lines.len() == n + 2
            &&& lines.subrange(0, n) == end.lines
            &&& end.local == none ==> lines[n] == "unset "@ + "ASWITCH_LOCAL_STATE"@
            &&& end.local != none ==> lines[n] == export_text(
                "ASWITCH_LOCAL_STATE"@,
                state_text(sorted_items(end.local)),
            )
            &&& end.project == none ==> lines[n + 1] == "unset "@ + "ASWITCH_PROJECT_STATE"@
            &&& end.project != none ==> lines[n + 1] == export_text(
                "ASWITCH_PROJECT_STATE"@,
                state_text(sorted_items(end.project)),
            )
        }),
{
}

// ---------------------------------------------------------------------------------------------
// Letting go of what is active everywhere
// ---------------------------------------------------------------------------------------------
/// The plugins to clear everywhere are those with an active account.
pub proof fn plugins_with_an_active_account_are_cleared(current: Seq<CurrentView>, p: Seq<char>)
    ensures
        active_plugins(current).contains(p) <==> exists|i: int|
            0 <= i < current.len() && (#[trigger] current[i]).plugin_id == p && current[i].alias
                is Some,
    decreases current.len(),
{
    if current.len() > 0 {
        let rest = current.drop_last();
        plugins_with_an_active_account_are_cleared(rest, p);
        let before = active_plugins(rest);
        let all = active_plugins(current);
        assert(current[current.len() - 1] == current.last());
        if before.contains(p) {
            let k = choose|k: int| 0 <= k < before.len() && before[k] == p;
            assert(all[k] == p);
            let i = choose|i: int|
                0 <= i < rest.len() && (#[trigger] rest[i]).plugin_id == p && rest[i].alias is Some;
            assert(current[i] == rest[i]);
        }
        if all.contains(p) {
            let k = choose|k: int| 0 <= k < all.len() && all[k] == p;
            if k < before.len() {
                assert(before[k] == p);
            }
        }
        if exists|i: int|
            0 <= i < current.len() && (#[trigger] current[i]).plugin_id == p && current[i].alias
                is Some {
            let i = choose|i: int|
                0 <= i < current.len() && (#[trigger] current[i]).plugin_id == p && current[i].alias
                    is Some;
            if i < rest.len() {
                assert(rest[i] == current[i]);
            } else {
                assert(all[all.len() - 1] == p);
            }
        }
    }
}

/// Clearing plugins leaves the accounts as they are, leaves the cleared plugins without an active
/// account, and does not touch what is active of the others.
pub proof fn clearing_lets_go_of_nothing_else(registry: RegistryView, plugins: Seq<Seq<char>>)
    ensures
        ({
            let after = deactivated(registry, plugins);
            &&& after.accounts == registry.accounts
            &&& forall|p: Seq<char>|
                plugins.contains(p) ==> #[trigger] active_alias(after, p) is None
            &&& forall|p: Seq<char>|
                !plugins.contains(p) ==> #[trigger] active_alias(after, p) == active_alias(
                    registry,
                    p,
                )
        }),
    decreases plugins.len(),
{
    if plugins.len() > 0 {
        let rest = plugins.drop_last();
        clearing_lets_go_of_nothing_else(registry, rest);
        assert forall|p: Seq<char>| plugins.contains(p) <==> (#[trigger] rest.contains(p) || p
            == plugins.last()) by {
            if plugins.contains(p) {
                let k = choose|k: int| 0 <= k < plugins.len() && plugins[k] == p;
                if k < rest.len() {
                    assert(rest[k] == p);
                }
            }
            if rest.contains(p) {
                let k = choose|k: int| 0 <= k < rest.len() && rest[k] == p;
                assert(plugins[k] == p);
            }
            assert(plugins[plugins.len() - 1] == plugins.last());
        }
        let before = deactivated(registry, rest);
        let after = deactivated(registry, plugins);
        assert forall|p: Seq<char>| plugins.contains(p) implies #[trigger] active_alias(after, p)
            is None by {
            if p != plugins.last() {
                assert(rest.contains(p));
                assert(active_alias(before, p) is None);
            }
        }
        assert forall|p: Seq<char>| !plugins.contains(p) implies #[trigger] active_alias(after, p)
            == active_alias(registry, p) by {
            assert(!rest.contains(p));
            assert(active_alias(before, p) == active_alias(registry, p));
        }
    }
}

/// Clearing reports each plugin in turn, with the alias that was active before, where there was one.
pub proof fn clearing_reports_what_was_active(registry: RegistryView, plugins: Seq<Seq<char>>)
    ensures
        ({
            let reports = global_reports(registry, plugins);
            &&& reports.len() == plugins.len()
            &&& forall|i: int|
                0 <= i < plugins.len() ==> (#[trigger] reports[i]).plugin_id == plugins[i]
            &&& forall|i: int|
                0 <= i < plugins.len() && (forall|j: int|
                    0 <= j < i ==> #[trigger] plugins[j] != plugins[i]) ==> (
                #[trigger] reports[i]).previous_alias == active_alias(registry, plugins[i])
        }),
    decreases plugins.len(),
{
    if plugins.len() > 0 {
        let rest = plugins.drop_last();
        let n = rest.len() as int;
        clearing_reports_what_was_active(registry, rest);
        clearing_lets_go_of_nothing_else(registry, rest);
        let reports = global_reports(registry, plugins);
        let before = global_reports(registry, rest);
        assert forall|i: int|
            0 <= i < plugins.len() && (forall|j: int|
                0 <= j < i ==> #[trigger] plugins[j] != plugins[i]) implies (
        #[trigger] reports[i]).previous_alias == active_alias(registry, plugins[i]) by {
            if i < n {
                assert(reports[i] == before[i]);
                assert(rest[i] == plugins[i]);
                assert forall|j: int| 0 <= j < i implies #[trigger] rest[j] != rest[i] by {
                    assert(plugins[j] != plugins[i]);
                }
            } else {
                if rest.contains(plugins[i]) {
                    let j = choose|j: int| 0 <= j < rest.len() && rest[j] == plugins[i];
                    assert(plugins[j] != plugins[i]);
                }
            }
        }
        assert forall|i: int| 0 <= i < plugins.len() implies (#[trigger] reports[i]).plugin_id
            == plugins[i] by {
            if i < n {
                assert(reports[i] == before[i]);
                assert(rest[i] == plugins[i]);
            }
        }
    }
}

/// The live paths of a plugin are the paths of its credential files, in their order.
pub proof fn live_paths_are_those_of_the_manifest(files: Seq<AuxFile>, home: Seq<char>)
    ensures
        live_paths_of(files, home).len() == files.len(),
        forall|i: int|
            0 <= i < files.len() ==> #[trigger] live_paths_of(files, home)[i] == user_path(
                files[i].path@,
                home,
            ),
{
}

} // verus!
