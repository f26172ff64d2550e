//! Saved accounts: what is listed of them, and what saving, renaming and removing one changes.
use vstd::prelude::*;

use crate::account::{
    AccountError, RecordView, StatusRowView, added, catalog_ids, current_of, known, last_switch,
    latest_use, lists_known, manifest_of, or_else, passes, plugin_records, record_of, records_in,
    records_of, removed, rename_problem, renamed, status_of,
};
use crate::plugin::catalog::LoadedManifest;
use crate::registry::{AccountView, RegistryView};
use crate::switch::PathState;
use crate::text::{lemma_text_lt_irreflexive, text_lt};
use crate::text_map::{lemma_map_of, map_of, sorted_items, sorted_items_exist, strictly_sorted};
use crate::time::{Timestamp, earlier};

verus! {

// ---------------------------------------------------------------------------------------------
// Listing
// ---------------------------------------------------------------------------------------------
/// Whether a registry holds only as much as can be listed.
pub open spec fn listable(r: RegistryView) -> bool {
    &&& r.accounts.dom().finite()
    &&& forall|p: Seq<char>|
        r.accounts.contains_key(p) ==> (#[trigger] r.accounts[p]).dom().finite()
}

/// Whether a record tells of an account what is known of it.
pub open spec fn tells_of(
    record: RecordView,
    account: AccountView,
    active: Option<Seq<char>>,
) -> bool {
    &&& record.email == account.email
    &&& record.org_name == account.org_name
    &&& record.plan == account.plan
    &&& record.added_at == account.added_at
    &&& record.last_used_at == account.last_used_at
    &&& record.active <==> active == Some(record.alias)
}

/// The alias that a registry names as active.
pub open spec fn named_active(r: RegistryView, plugin: Seq<char>) -> Option<Seq<char>> {
    if r.active.contains_key(plugin) {
        r.active[plugin]
    } else {
        None
    }
}

/// Whether one record comes before another: by the plugin, and then by the alias.
pub open spec fn listed_before(a: RecordView, b: RecordView) -> bool {
    text_lt(a.plugin_id, b.plugin_id) || (a.plugin_id == b.plugin_id && text_lt(a.alias, b.alias))
}

proof fn lemma_plugin_records(
    plugin: Seq<char>,
    accounts: Map<Seq<char>, AccountView>,
    active: Option<Seq<char>>,
)
    requires
        accounts.dom().finite(),
    ensures
        ({
            let list = plugin_records(plugin, accounts, active);
            &&& forall|i: int|
                0 <= i < list.len() ==> (#[trigger] list[i]).plugin_id == plugin
                    && accounts.contains_key(list[i].alias) && tells_of(
                    list[i],
                    accounts[list[i].alias],
                    active,
                )
            &&& forall|a: Seq<char>| #[trigger]
                accounts.contains_key(a) ==> exists|i: int|
                    0 <= i < list.len() && (#[trigger] list[i]).alias == a
            &&& forall|i: int, j: int|
                0 <= i < j < list.len() ==> text_lt(
                    (#[trigger] list[i]).alias,
                    (#[trigger] list[j]).alias,
                )
        }),
{
    let items = sorted_items(accounts);
    let list = plugin_records(plugin, accounts, active);
    sorted_items_exist(accounts);
    lemma_map_of(items);
    assert forall|i: int| 0 <= i < list.len() implies (#[trigger] list[i]).plugin_id == plugin
        && accounts.contains_key(list[i].alias) && tells_of(
        list[i],
        accounts[list[i].alias],
        active,
    ) by {
        assert(list[i] == record_of(plugin, items[i].0, items[i].1, active));
        assert(map_of(items).contains_key(items[i].0));
    }
    assert forall|a: Seq<char>| #[trigger] accounts.contains_key(a) implies exists|i: int|
        0 <= i < list.len() && (#[trigger] list[i]).alias == a by {
        assert(map_of(items).contains_key(a));
        let i = choose|i: int| 0 <= i < items.len() && #[trigger] items[i].0 == a;
        assert(list[i].alias == a);
    }
    assert forall|i: int, j: int| 0 <= i < j < list.len() implies text_lt(
        (#[trigger] list[i]).alias,
        (#[trigger] list[j]).alias,
    ) by {
        assert(text_lt(items[i].0, items[j].0));
    }
}

/// What a list of records holds, of plugins with their accounts.
pub open spec fn lists_exactly(
    list: Seq<RecordView>,
    items: Seq<(Seq<char>, Map<Seq<char>, AccountView>)>,
    r: RegistryView,
    filter: Option<Seq<char>>,
) -> bool {
    &&& forall|i: int|
        0 <= i < list.len() ==> exists|k: int|
            0 <= k < items.len() && (#[trigger] items[k]).0 == (#[trigger] list[i]).plugin_id && (
            filter is None || filter == Some(items[k].0)) && items[k].1.contains_key(list[i].alias)
                && tells_of(
                list[i],
                items[k].1[list[i].alias],
                named_active(r, items[k].0),
            )
    &&& forall|k: int, a: Seq<char>|
        0 <= k < items.len() && (filter is None || filter == Some(items[k].0))
            && #[trigger] items[k].1.contains_key(a) ==> exists|i: int|
            0 <= i < list.len() && (#[trigger] list[i]).plugin_id == items[k].0 && list[i].alias == a
    &&& forall|i: int, j: int|
        0 <= i < j < list.len() ==> listed_before(#[trigger] list[i], #[trigger] list[j])
}

proof fn lemma_records_in(
    items: Seq<(Seq<char>, Map<Seq<char>, AccountView>)>,
    r: RegistryView,
    filter: Option<Seq<char>>,
)
    requires
        strictly_sorted(items),
        forall|k: int| 0 <= k < items.len() ==> (#[trigger] items[k]).1.dom().finite(),
    ensures
        lists_exactly(records_in(items, r, filter), items, r, filter),
    decreases items.len(),
{
    let list = records_in(items, r, filter);
    if items.len() > 0 {
        let rest = items.drop_last();
        let front = records_in(rest, r, filter);
        let (plugin, accounts) = items.last();
        let last = items.len() - 1;
        assert(items[last] == (plugin, accounts));
        assert(strictly_sorted(rest)) by {
            assert forall|i: int, j: int| 0 <= i < j < rest.len() implies text_lt(
                #[trigger] rest[i].0,
                #[trigger] rest[j].0,
            ) by {
                assert(text_lt(items[i].0, items[j].0));
            }
        }
        assert forall|k: int| 0 <= k < rest.len() implies (#[trigger] rest[k]).1.dom().finite() by {
            assert(rest[k] == items[k]);
        }
        lemma_records_in(rest, r, filter);
        assert(accounts.dom().finite());
        lemma_plugin_records(plugin, accounts, named_active(r, plugin));
        let tail = plugin_records(plugin, accounts, named_active(r, plugin));
        let wanted = filter is None || filter == Some(plugin);
        assert(list == if wanted {
            front + tail
        } else {
            front
        });
        assert forall|i: int| 0 <= i < list.len() implies exists|k: int|
            0 <= k < items.len() && (#[trigger] items[k]).0 == (#[trigger] list[i]).plugin_id && (
            filter is None || filter == Some(items[k].0)) && items[k].1.contains_key(list[i].alias)
                && tells_of(
                list[i],
                items[k].1[list[i].alias],
                named_active(r, items[k].0),
            ) by {
            if i < front.len() {
                assert(list[i] == front[i]);
                let k = choose|k: int|
                    0 <= k < rest.len() && (#[trigger] rest[k]).0 == front[i].plugin_id && (filter
                        is None || filter == Some(rest[k].0)) && rest[k].1.contains_key(
                        front[i].alias,
                    ) && tells_of(
                        front[i],
                        rest[k].1[front[i].alias],
                        named_active(r, rest[k].0),
                    );
                assert(items[k] == rest[k]);
            } else {
                assert(list[i] == tail[i - front.len()]);
                assert(items[last].0 == plugin);
            }
        }
        assert forall|k: int, a: Seq<char>|
            0 <= k < items.len() && (filter is None || filter == Some(items[k].0))
                && #[trigger] items[k].1.contains_key(a) implies exists|i: int|
            0 <= i < list.len() && (#[trigger] list[i]).plugin_id == items[k].0 && list[i].alias
                == a by {
            if k < last {
                assert(rest[k] == items[k]);
                assert(rest[k].1.contains_key(a));
                let i = choose|i: int|
                    0 <= i < front.len() && (#[trigger] front[i]).plugin_id == rest[k].0
                        && front[i].alias == a;
                assert(list[i] == front[i]);
            } else {
                let i = choose|i: int| 0 <= i < tail.len() && (#[trigger] tail[i]).alias == a;
                assert(list[front.len() + i] == tail[i]);
            }
        }
        assert forall|i: int, j: int| 0 <= i < j < list.len() implies listed_before(
            #[trigger] list[i],
            #[trigger] list[j],
        ) by {
            if j < front.len() {
                assert(listed_before(front[i], front[j]));
            } else if i >= front.len() {
                assert(text_lt(
                    tail[i - front.len()].alias,
                    tail[j - front.len()].alias,
                ));
            } else {
                let k = choose|k: int|
                    0 <= k < rest.len() && (#[trigger] rest[k]).0 == front[i].plugin_id;
                assert(exists|k: int|
                    0 <= k < rest.len() && (#[trigger] rest[k]).0 == front[i].plugin_id);
                assert(text_lt(items[k].0, items[last].0));
                assert(list[j] == tail[j - front.len()]);
            }
        }
    }
}

/// The list of accounts holds each account of the registry that passes the filter exactly once, by
/// plugin and alias in their order, and tells of it what the registry knows: its email, organisation
/// and plan, when it came and when it was used last, and whether it is active.
pub proof fn the_list_tells_of_each_account_once(r: RegistryView, filter: Option<Seq<char>>)
    requires
        listable(r),
    ensures
        ({
            let list = records_of(r, filter);
            &&& forall|i: int|
                0 <= i < list.len() ==> {
                    let record = #[trigger] list[i];
                    &&& r.accounts.contains_key(record.plugin_id)
                    &&& r.accounts[record.plugin_id].contains_key(record.alias)
                    &&& filter is None || filter == Some(record.plugin_id)
                    &&& tells_of(
                        record,
                        r.accounts[record.plugin_id][record.alias],
                        named_active(r, record.plugin_id),
                    )
                }
            &&& forall|p: Seq<char>, a: Seq<char>|
                r.accounts.contains_key(p) && (filter is None || filter == Some(p))
                    && #[trigger] r.accounts[p].contains_key(a) ==> exists|i: int|
                    0 <= i < list.len() && (#[trigger] list[i]).plugin_id == p && list[i].alias == a
            &&& forall|i: int, j: int|
                0 <= i < j < list.len() ==> listed_before(#[trigger] list[i], #[trigger] list[j])
            &&& forall|i: int, j: int|
                0 <= i < list.len() && 0 <= j < list.len() && (#[trigger] list[i]).plugin_id == (
                #[trigger] list[j]).plugin_id && list[i].alias == list[j].alias ==> i == j
        }),
{
    let items = sorted_items(r.accounts);
    let list = records_of(r, filter);
    sorted_items_exist(r.accounts);
    lemma_map_of(items);
    assert forall|k: int| 0 <= k < items.len() implies (#[trigger] items[k]).1.dom().finite() by {
        assert(map_of(items).contains_key(items[k].0));
        assert(r.accounts[items[k].0] == items[k].1);
    }
    lemma_records_in(items, r, filter);
    assert forall|i: int| 0 <= i < list.len() implies {
        let record = #[trigger] list[i];
        &&& r.accounts.contains_key(record.plugin_id)
        &&& r.accounts[record.plugin_id].contains_key(record.alias)
        &&& filter is None || filter == Some(record.plugin_id)
        &&& tells_of(
            record,
            r.accounts[record.plugin_id][record.alias],
            named_active(r, record.plugin_id),
        )
    } by {
        let k = choose|k: int|
            0 <= k < items.len() && (#[trigger] items[k]).0 == list[i].plugin_id && (filter is None
                || filter == Some(items[k].0)) && items[k].1.contains_key(list[i].alias)
                && tells_of(list[i], items[k].1[list[i].alias], named_active(r, items[k].0));
        assert(map_of(items).contains_key(items[k].0));
    }
    assert forall|p: Seq<char>, a: Seq<char>|
        r.accounts.contains_key(p) && (filter is None || filter == Some(p))
            && #[trigger] r.accounts[p].contains_key(a) implies exists|i: int|
        0 <= i < list.len() && (#[trigger] list[i]).plugin_id == p && list[i].alias == a by {
        assert(map_of(items).contains_key(p));
        let k = choose|k: int| 0 <= k < items.len() && #[trigger] items[k].0 == p;
        assert(items[k].1.contains_key(a));
    }
    assert forall|i: int, j: int|
        0 <= i < list.len() && 0 <= j < list.len() && (#[trigger] list[i]).plugin_id == (
        #[trigger] list[j]).plugin_id && list[i].alias == list[j].alias implies i == j by {
        lemma_text_lt_irreflexive(list[i].plugin_id);
        lemma_text_lt_irreflexive(list[i].alias);
        if i < j {
            assert(listed_before(list[i], list[j]));
        } else if j < i {
            assert(listed_before(list[j], list[i]));
        }
    }
}

/// The current account of a plugin is the one that the registry names as active. Where it is saved,
/// what is known of it is told; where it is not, nothing is.
pub proof fn the_current_account_is_the_active_one(r: RegistryView, plugin: Seq<char>)
    ensures
        ({
            let current = current_of(r, plugin);
            let active = named_active(r, plugin);
            let saved = active is Some && r.accounts.contains_key(plugin)
                && r.accounts[plugin].contains_key(active->0);
            &&& current.plugin_id == plugin
            &&& current.alias == active
            &&& current.managed <==> saved
            &&& saved ==> {
                let account = r.accounts[plugin][active->0];
                &&& current.email == account.email
                &&& current.org_name == account.org_name
                &&& current.plan == account.plan
                &&& current.last_used_at == account.last_used_at
            }
            &&& !saved ==> {
                &&& current.email is None
                &&& current.org_name is None
                &&& current.plan is None
                &&& current.last_used_at is None
            }
        }),
{
}

// ---------------------------------------------------------------------------------------------
// Saving, renaming, removing
// ---------------------------------------------------------------------------------------------
/// Saving an account makes it active and keeps of it the identity that was found; the day on which it
/// came stays where it was saved before, and it counts as used now. No other account changes, nor
/// what is active of another plugin.
pub proof fn saving_keeps_what_was_found(
    r: RegistryView,
    plugin: Seq<char>,
    alias: Seq<char>,
    email: Option<Seq<char>>,
    org_name: Option<Seq<char>>,
    plan: Option<Seq<char>>,
    saved_at: Timestamp,
    p: Seq<char>,
    a: Seq<char>,
)
    ensures
        ({
            let after = added(r, plugin, alias, email, org_name, plan, saved_at);
            let was_there = r.accounts.contains_key(plugin) && r.accounts[plugin].contains_key(
                alias,
            );
            let known = r.accounts.contains_key(p) && r.accounts[p].contains_key(a);
            let known_after = after.accounts.contains_key(p) && after.accounts[p].contains_key(a);
            &&& after.version == r.version
            &&& after.active.contains_key(plugin) && after.active[plugin] == Some(alias)
            &&& after.accounts.contains_key(plugin) && after.accounts[plugin].contains_key(alias)
            &&& after.accounts[plugin][alias].alias == alias
            &&& after.accounts[plugin][alias].email == email
            &&& after.accounts[plugin][alias].org_name == org_name
            &&& after.accounts[plugin][alias].plan == plan
            &&& after.accounts[plugin][alias].last_used_at == Some(saved_at)
            &&& after.accounts[plugin][alias].added_at == if was_there {
                r.accounts[plugin][alias].added_at
            } else {
                saved_at
            }
            &&& p != plugin || a != alias ==> known_after == known && (known
                ==> after.accounts[p][a] == r.accounts[p][a])
            &&& p != plugin ==> named_active(after, p) == named_active(r, p)
        }),
{
}

/// What the credential says of an account goes before what the service adds.
pub proof fn what_is_found_first_is_kept(found: Option<Seq<char>>, looked_up: Option<Seq<char>>)
    ensures
        found is Some ==> or_else(found, looked_up) == found,
        found is None ==> or_else(found, looked_up) == looked_up,
{
}

/// Renaming moves an account, with all that is known of it, from one alias to another, and it stays
/// active where it was. No other account changes, nor what is active of another plugin.
pub proof fn renaming_moves_one_account(
    r: RegistryView,
    plugin: Seq<char>,
    old_alias: Seq<char>,
    new_alias: Seq<char>,
    p: Seq<char>,
    a: Seq<char>,
)
    requires
        r.accounts.contains_key(plugin),
        r.accounts[plugin].contains_key(old_alias),
        !r.accounts[plugin].contains_key(new_alias),
    ensures
        ({
            let after = renamed(r, plugin, old_alias, new_alias);
            let before = r.accounts[plugin][old_alias];
            let known = r.accounts.contains_key(p) && r.accounts[p].contains_key(a);
            let known_after = after.accounts.contains_key(p) && after.accounts[p].contains_key(a);
            &&& after.version == r.version
            &&& !after.accounts[plugin].contains_key(old_alias)
            &&& after.accounts[plugin].contains_key(new_alias)
            &&& after.accounts[plugin][new_alias].alias == new_alias
            &&& after.accounts[plugin][new_alias].email == before.email
            &&& after.accounts[plugin][new_alias].org_name == before.org_name
            &&& after.accounts[plugin][new_alias].plan == before.plan
            &&& after.accounts[plugin][new_alias].added_at == before.added_at
            &&& after.accounts[plugin][new_alias].last_used_at == before.last_used_at
            &&& p != plugin || (a != old_alias && a != new_alias) ==> known_after == known && (known
                ==> after.accounts[p][a] == r.accounts[p][a])
            &&& p != plugin ==> named_active(after, p) == named_active(r, p)
            &&& named_active(after, plugin) == if named_active(r, plugin) == Some(old_alias) {
                Some(new_alias)
            } else {
                named_active(r, plugin)
            }
        }),
{
}

/// Why an account cannot be renamed: the alias stays the same, there is no such account, the new alias
/// is taken in the registry, what is saved is no directory, or there is something saved under the new
/// alias; the first of these that holds is told.
pub proof fn a_refused_rename_says_why(
    r: RegistryView,
    plugin: Seq<char>,
    old_alias: Seq<char>,
    new_alias: Seq<char>,
    accounts_dir: Seq<char>,
    old_backup: PathState,
    new_backup: PathState,
    e: AccountError,
)
    requires
        rename_problem(r, plugin, old_alias, new_alias, accounts_dir, old_backup, new_backup, e),
    ensures
        ({
            let here = r.accounts.contains_key(plugin) && r.accounts[plugin].contains_key(old_alias);
            let taken = r.accounts.contains_key(plugin) && r.accounts[plugin].contains_key(
                new_alias,
            );
            let odd = old_backup == PathState::File || old_backup == PathState::Other;
            &&& e is AliasUnchanged <==> old_alias == new_alias
            &&& e is AccountNotFound <==> old_alias != new_alias && !here
            &&& e is BackupPathNotDirectory <==> old_alias != new_alias && here && !taken && odd
            &&& e is TargetAliasExists <==> old_alias != new_alias && here && (taken || (!odd
                && new_backup != PathState::Missing))
            &&& e matches AccountError::TargetAliasExists { alias, .. } ==> alias@ == new_alias
            &&& e matches AccountError::AccountNotFound { alias, .. } ==> alias@ == old_alias
        }),
{
}

/// Removing takes one account away, and a plugin without accounts with it. What was active stays so,
/// unless it was that account; then none is. No other account changes.
pub proof fn removing_takes_one_account(
    r: RegistryView,
    plugin: Seq<char>,
    alias: Seq<char>,
    p: Seq<char>,
    a: Seq<char>,
)
    requires
        r.accounts.contains_key(plugin),
        r.accounts[plugin].contains_key(alias),
    ensures
        ({
            let after = removed(r, plugin, alias);
            let known = r.accounts.contains_key(p) && r.accounts[p].contains_key(a);
            let known_after = after.accounts.contains_key(p) && after.accounts[p].contains_key(a);
            &&& after.version == r.version
            &&& p == plugin && a == alias ==> !known_after
            &&& p != plugin || a != alias ==> known_after == known && (known
                ==> after.accounts[p][a] == r.accounts[p][a])
            &&& after.accounts.contains_key(plugin) <==> exists|other: Seq<char>|
                other != alias && #[trigger] r.accounts[plugin].contains_key(other)
            &&& p != plugin ==> named_active(after, p) == named_active(r, p)
                && after.accounts.contains_key(p) == r.accounts.contains_key(p)
            &&& named_active(after, plugin) == if named_active(r, plugin) == Some(alias) {
                None
            } else {
                named_active(r, plugin)
            }
        }),
{
    let rest = r.accounts[plugin].remove(alias);
    if rest == Map::<Seq<char>, AccountView>::empty() {
        assert forall|other: Seq<char>| other != alias implies !(
        #[trigger] r.accounts[plugin].contains_key(other)) by {
            if r.accounts[plugin].contains_key(other) {
                assert(rest.contains_key(other));
            }
        }
    } else {
        if forall|k: Seq<char>| !rest.contains_key(k) {
            assert(rest =~= Map::<Seq<char>, AccountView>::empty());
        }
        let k = choose|k: Seq<char>| rest.contains_key(k);
        assert(r.accounts[plugin].contains_key(k));
    }
}

// ---------------------------------------------------------------------------------------------
// Status
// ---------------------------------------------------------------------------------------------
/// A point in time that is not before any of some others and is one of them, or none where there is
/// none.
pub open spec fn is_latest(latest: Option<Timestamp>, all: Seq<Option<Timestamp>>) -> bool {
    &&& latest is Some ==> all.contains(latest)
    &&& forall|i: int|
        0 <= i < all.len() && (#[trigger] all[i]) is Some ==> latest is Some && !earlier(
            latest->0,
            all[i]->0,
        )
}

proof fn lemma_latest_use(items: Seq<(Seq<char>, AccountView)>)
    ensures
        is_latest(
            latest_use(items),
            items.map_values(|e: (Seq<char>, AccountView)| e.1.last_used_at),
        ),
    decreases items.len(),
{
    let times = items.map_values(|e: (Seq<char>, AccountView)| e.1.last_used_at);
    if items.len() > 0 {
        let rest = items.drop_last();
        lemma_latest_use(rest);
        let front = rest.map_values(|e: (Seq<char>, AccountView)| e.1.last_used_at);
        let last = items.len() - 1;
        assert(times[last] == items.last().1.last_used_at);
        assert forall|i: int| 0 <= i < last implies #[trigger] times[i] == front[i] by {}
        if latest_use(rest) is Some {
            let k = choose|k: int| 0 <= k < front.len() && front[k] == latest_use(rest);
            assert(times[k] == latest_use(rest));
        }
    }
}

/// The accounts that are saved for a plugin.
pub open spec fn saved_under(r: RegistryView, id: Seq<char>) -> Map<Seq<char>, AccountView> {
    if r.accounts.contains_key(id) {
        r.accounts[id]
    } else {
        Map::empty()
    }
}

/// The status of a plugin counts its saved accounts and tells when one of them was used last. It names
/// the active one, and what the catalog says of the plugin where it has it.
pub proof fn the_status_counts_the_accounts(
    r: RegistryView,
    plugins: Seq<LoadedManifest>,
    id: Seq<char>,
)
    requires
        listable(r),
    ensures
        ({
            let row = status_of(r, plugins, id);
            let accounts = saved_under(r, id);
            let listed = exists|i: int|
                0 <= i < plugins.len() && (#[trigger] plugins[i]).manifest.id@ == id;
            &&& row.plugin_id == id
            &&& row.active_alias == named_active(r, id)
            &&& row.account_count == accounts.dom().len()
            &&& forall|a: Seq<char>| #[trigger]
                accounts.contains_key(a) && accounts[a].last_used_at is Some
                    ==> row.last_used_at is Some && !earlier(
                    row.last_used_at->0,
                    accounts[a].last_used_at->0,
                )
            &&& row.last_used_at is Some ==> exists|a: Seq<char>| #[trigger]
                accounts.contains_key(a) && accounts[a].last_used_at == row.last_used_at
            &&& row.loaded <==> listed
            &&& listed ==> exists|i: int|
                0 <= i < plugins.len() && (#[trigger] plugins[i]).manifest.id@ == id
                    && row.display_name == Some(plugins[i].manifest.display_name@) && row.version
                    == Some(plugins[i].manifest.version@) && row.warnings
                    == plugins[i].warnings.deep_view() && row.source == Some("user"@)
            &&& !listed ==> row.display_name is None && row.version is None && row.source is None
                && row.warnings.len() == 0
        }),
{
    let row = status_of(r, plugins, id);
    let accounts = saved_under(r, id);
    let items = sorted_items(accounts);
    sorted_items_exist(accounts);
    lemma_map_of(items);
    lemma_latest_use(items);
    lemma_item_count(items);
    let times = items.map_values(|e: (Seq<char>, AccountView)| e.1.last_used_at);
    assert forall|a: Seq<char>| #[trigger]
        accounts.contains_key(a) && accounts[a].last_used_at is Some implies row.last_used_at is Some
        && !earlier(row.last_used_at->0, accounts[a].last_used_at->0) by {
        assert(map_of(items).contains_key(a));
        let i = choose|i: int| 0 <= i < items.len() && #[trigger] items[i].0 == a;
        assert(times[i] == accounts[a].last_used_at);
    }
    if row.last_used_at is Some {
        let i = choose|i: int| 0 <= i < times.len() && times[i] == row.last_used_at;
        assert(map_of(items).contains_key(items[i].0));
        assert(accounts.contains_key(items[i].0));
    }
    lemma_manifest_of(plugins, id);
}

proof fn lemma_item_count<W>(items: Seq<(Seq<char>, W)>)
    requires
        strictly_sorted(items),
    ensures
        map_of(items).dom().len() == items.len(),
        map_of(items).dom().finite(),
    decreases items.len(),
{
    if items.len() > 0 {
        let rest = items.drop_last();
        assert(strictly_sorted(rest)) by {
            assert forall|i: int, j: int| 0 <= i < j < rest.len() implies text_lt(
                #[trigger] rest[i].0,
                #[trigger] rest[j].0,
            ) by {
                assert(text_lt(items[i].0, items[j].0));
            }
        }
        lemma_item_count(rest);
        lemma_map_of(rest);
        let k = items.last().0;
        if map_of(rest).contains_key(k) {
            let i = choose|i: int| 0 <= i < rest.len() && #[trigger] rest[i].0 == k;
            assert(text_lt(items[i].0, items[items.len() - 1].0));
            lemma_text_lt_irreflexive(k);
        }
        assert(map_of(items) == map_of(rest).insert(k, items.last().1));
        assert(map_of(items).dom() =~= map_of(rest).dom().insert(k));
    } else {
        assert(map_of(items).dom() =~= Set::empty());
    }
}

proof fn lemma_manifest_of(plugins: Seq<LoadedManifest>, id: Seq<char>)
    ensures
        match manifest_of(plugins, id) {
            Some(l) => exists|i: int|
                0 <= i < plugins.len() && #[trigger] plugins[i] == l && l.manifest.id@ == id,
            None => forall|i: int|
                0 <= i < plugins.len() ==> (#[trigger] plugins[i]).manifest.id@ != id,
        },
    decreases plugins.len(),
{
    if plugins.len() > 0 && plugins[0].manifest.id@ != id {
        let rest = plugins.drop_first();
        lemma_manifest_of(rest, id);
        match manifest_of(rest, id) {
            Some(l) => {
                let i = choose|i: int|
                    0 <= i < rest.len() && #[trigger] rest[i] == l && l.manifest.id@ == id;
                assert(plugins[i + 1] == l);
            },
            None => {
                assert forall|i: int| 0 <= i < plugins.len() implies (
                #[trigger] plugins[i]).manifest.id@ != id by {
                    if i > 0 {
                        assert(rest[i - 1] == plugins[i]);
                    }
                }
            },
        }
    }
}

/// The last switch is the latest time at which an account of any plugin was used.
pub proof fn the_last_switch_is_the_latest_use(rows: Seq<StatusRowView>)
    ensures
        is_latest(last_switch(rows), rows.map_values(|row: StatusRowView| row.last_used_at)),
    decreases rows.len(),
{
    let times = rows.map_values(|row: StatusRowView| row.last_used_at);
    if rows.len() > 0 {
        let rest = rows.drop_last();
        the_last_switch_is_the_latest_use(rest);
        let front = rest.map_values(|row: StatusRowView| row.last_used_at);
        let last = rows.len() - 1;
        assert(times[last] == rows.last().last_used_at);
        assert forall|i: int| 0 <= i < last implies #[trigger] times[i] == front[i] by {}
        if last_switch(rest) is Some {
            let k = choose|k: int| 0 <= k < front.len() && front[k] == last_switch(rest);
            assert(times[k] == last_switch(rest));
        }
    }
}

/// The plugins that are told of are those with accounts, those of which one was active, and those that
/// are loaded; a filter leaves the one that it names. They come in their order, each of them once.
pub proof fn each_known_plugin_is_told_of(
    list: Seq<Seq<char>>,
    r: RegistryView,
    plugins: Seq<LoadedManifest>,
    filter: Option<Seq<char>>,
    id: Seq<char>,
)
    requires
        lists_known(list, r, plugins, filter),
    ensures
        list.contains(id) <==> (r.accounts.contains_key(id) || r.active.contains_key(id) || (
        exists|i: int| 0 <= i < plugins.len() && (#[trigger] plugins[i]).manifest.id@ == id)) && (
        filter is None || filter == Some(id)),
        forall|i: int, j: int|
            0 <= i < j < list.len() ==> text_lt(#[trigger] list[i], #[trigger] list[j]),
{
    let ids = catalog_ids(plugins);
    assert(list.contains(id) <==> known(r, plugins, id) && passes(filter, id));
    if ids.contains(id) {
        let k = choose|k: int| 0 <= k < ids.len() && ids[k] == id;
        assert(plugins[k].manifest.id@ == id);
    }
    if exists|i: int| 0 <= i < plugins.len() && (#[trigger] plugins[i]).manifest.id@ == id {
        let i = choose|i: int| 0 <= i < plugins.len() && (#[trigger] plugins[i]).manifest.id@ == id;
        assert(ids[i] == id);
    }
}

} // verus!
