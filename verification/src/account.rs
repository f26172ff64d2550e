//! The saved accounts: saving, listing, renaming and removing them.
use vstd::prelude::*;

use crate::gemini::GEMINI_PLUGIN_ID;
use crate::identity::Identity;
use crate::path::{join_path, joined};
use crate::paths::{AswitchPaths, PathsError};
use crate::plugin::catalog::{
    LoadedManifest, PluginCatalog, PluginScanError, PluginSource, failure_views,
};
use crate::registry::{
    AccountMetadata, AccountView, Registry, RegistryError, RegistryView, account_of, accounts_of,
    active_alias, consistent, has_account, with_account, with_active,
};
use crate::store::StoreResolveError;
use crate::switch::{PathState, SwitchFailure, account_dir, account_dir_of};
use crate::text::{copy_all, copy_opt, join2, join3, same, text_lt};
use crate::text_map::{Duplicate, TextMap, lemma_map_of, map_of, sorted_items, strictly_sorted};
use crate::time::{Timestamp, later, later_of};

verus! {

/// A saved account.
pub struct AccountRecord {
    pub plugin_id: String,
    pub alias: String,
    pub email: Option<String>,
    pub org_name: Option<String>,
    pub plan: Option<String>,
    pub added_at: Timestamp,
    pub last_used_at: Option<Timestamp>,
    pub active: bool,
}

pub struct RecordView {
    pub plugin_id: Seq<char>,
    pub alias: Seq<char>,
    pub email: Option<Seq<char>>,
    pub org_name: Option<Seq<char>>,
    pub plan: Option<Seq<char>>,
    pub added_at: Timestamp,
    pub last_used_at: Option<Timestamp>,
    pub active: bool,
}

impl DeepView for AccountRecord {
    type V = RecordView;

    open spec fn deep_view(&self) -> RecordView {
        RecordView {
            plugin_id: self.plugin_id@,
            alias: self.alias@,
            email: self.email.deep_view(),
            org_name: self.org_name.deep_view(),
            plan: self.plan.deep_view(),
            added_at: self.added_at,
            last_used_at: self.last_used_at,
            active: self.active,
        }
    }
}

impl Duplicate for AccountRecord {
    fn duplicate(&self) -> (r: Self) {
        AccountRecord {
            plugin_id: self.plugin_id.clone(),
            alias: self.alias.clone(),
            email: copy_opt(&self.email),
            org_name: copy_opt(&self.org_name),
            plan: copy_opt(&self.plan),
            added_at: self.added_at,
            last_used_at: self.last_used_at,
            active: self.active,
        }
    }
}

/// The active account of a plugin; `managed` says that it is a saved one.
pub struct CurrentAccountRecord {
    pub plugin_id: String,
    pub alias: Option<String>,
    pub email: Option<String>,
    pub org_name: Option<String>,
    pub plan: Option<String>,
    pub last_used_at: Option<Timestamp>,
    pub managed: bool,
}

pub struct CurrentView {
    pub plugin_id: Seq<char>,
    pub alias: Option<Seq<char>>,
    pub email: Option<Seq<char>>,
    pub org_name: Option<Seq<char>>,
    pub plan: Option<Seq<char>>,
    pub last_used_at: Option<Timestamp>,
    pub managed: bool,
}

impl DeepView for CurrentAccountRecord {
    type V = CurrentView;

    open spec fn deep_view(&self) -> CurrentView {
        CurrentView {
            plugin_id: self.plugin_id@,
            alias: self.alias.deep_view(),
            email: self.email.deep_view(),
            org_name: self.org_name.deep_view(),
            plan: self.plan.deep_view(),
            last_used_at: self.last_used_at,
            managed: self.managed,
        }
    }
}

/// What saving an account did.
pub struct AddAccountReport {
    pub plugin_id: String,
    pub alias: String,
    pub overwritten: bool,
    pub saved_at: Timestamp,
    pub identity: Identity,
    pub warnings: Vec<String>,
}

/// What renaming an account did.
pub struct RenameAccountReport {
    pub plugin_id: String,
    pub old_alias: String,
    pub new_alias: String,
    pub active_updated: bool,
}

/// What removing an account did.
pub struct RemoveAccountReport {
    pub plugin_id: String,
    pub alias: String,
    pub removed_backup: bool,
    pub was_active: bool,
}

/// The state of one plugin.
pub struct PluginStatusRow {
    pub plugin_id: String,
    pub display_name: Option<String>,
    pub version: Option<String>,
    pub source: Option<String>,
    pub loaded: bool,
    pub active_alias: Option<String>,
    pub account_count: usize,
    pub last_used_at: Option<Timestamp>,
    pub warnings: Vec<String>,
}

pub struct StatusRowView {
    pub plugin_id: Seq<char>,
    pub display_name: Option<Seq<char>>,
    pub version: Option<Seq<char>>,
    pub source: Option<Seq<char>>,
    pub loaded: bool,
    pub active_alias: Option<Seq<char>>,
    pub account_count: nat,
    pub last_used_at: Option<Timestamp>,
    pub warnings: Seq<Seq<char>>,
}

impl DeepView for PluginStatusRow {
    type V = StatusRowView;

    open spec fn deep_view(&self) -> StatusRowView {
        StatusRowView {
            plugin_id: self.plugin_id@,
            display_name: self.display_name.deep_view(),
            version: self.version.deep_view(),
            source: self.source.deep_view(),
            loaded: self.loaded,
            active_alias: self.active_alias.deep_view(),
            account_count: self.account_count as nat,
            last_used_at: self.last_used_at,
            warnings: self.warnings.deep_view(),
        }
    }
}

pub struct PluginStatusError {
    pub path: String,
    pub error: String,
}

/// The state of the program.
pub struct StatusReport {
    pub registry_version: u32,
    pub last_switch_at: Option<Timestamp>,
    pub plugins: Vec<PluginStatusRow>,
    pub warnings: Vec<String>,
    pub errors: Vec<PluginStatusError>,
}

/// Why something could not be done to an account.
pub enum AccountError {
    Paths(PathsError),
    Registry(RegistryError),
    StoreResolve(StoreResolveError),
    PluginScan(PluginScanError),
    Switch(SwitchFailure),
    AccountAlreadyExists { plugin_id: String, alias: String },
    NoActiveCredentials { plugin_id: String },
    AccountNotFound { plugin_id: String, alias: String },
    AliasUnchanged { plugin_id: String, alias: String },
    TargetAliasExists { plugin_id: String, alias: String },
    RemoveActiveRequiresForce { plugin_id: String, alias: String },
    BackupPathNotDirectory { path: String },
    RemovePath { path: String },
    RenamePath { from: String, to: String },
}

pub open spec fn named(plugin: Seq<char>, alias: Seq<char>) -> Seq<char> {
    plugin + "/"@ + alias
}

impl AccountError {
    pub open spec fn text(&self) -> Seq<char> {
        match *self {
            AccountError::Paths(_) => "failed to resolve aswitch paths"@,
            AccountError::Registry(_) => "failed to load or save registry"@,
            AccountError::StoreResolve(_) => "failed to resolve credential store"@,
            AccountError::PluginScan(_) => "failed to scan plugins"@,
            AccountError::Switch(failure) => failure.text(),
            AccountError::AccountAlreadyExists { plugin_id, alias } => "account "@ + named(
                plugin_id@,
                alias@,
            ) + " already exists; rerun with --force to overwrite"@,
            AccountError::NoActiveCredentials { plugin_id } => "plugin "@ + plugin_id@
                + " has no active credentials to capture; run the native login first"@,
            AccountError::AccountNotFound { plugin_id, alias } => "account "@ + named(
                plugin_id@,
                alias@,
            ) + " does not exist"@,
            AccountError::AliasUnchanged { plugin_id, alias } => "account "@ + named(
                plugin_id@,
                alias@,
            ) + " cannot be renamed to the same alias"@,
            AccountError::TargetAliasExists { plugin_id, alias } => "account "@ + named(
                plugin_id@,
                alias@,
            ) + " already exists"@,
            AccountError::RemoveActiveRequiresForce { plugin_id, alias } =>
                "cannot remove active account "@ + named(plugin_id@, alias@)
                + " without --force"@,
            AccountError::BackupPathNotDirectory { path } => "account backup path "@ + path@
                + " is not a directory"@,
            AccountError::RemovePath { path } => "failed to remove path "@ + path@,
            AccountError::RenamePath { from, to } => "failed to rename path from "@ + from@
                + " to "@ + to@,
        }
    }

    /// The error in words.
    pub fn message(&self) -> (r: String)
        ensures
            r@ == self.text(),
    {
        match self {
            AccountError::Paths(_) => "failed to resolve aswitch paths".to_owned(),
            AccountError::Registry(_) => "failed to load or save registry".to_owned(),
            AccountError::StoreResolve(_) => "failed to resolve credential store".to_owned(),
            AccountError::PluginScan(_) => "failed to scan plugins".to_owned(),
            AccountError::Switch(failure) => failure.message(),
            AccountError::AccountAlreadyExists { plugin_id, alias } => join3(
                "account ",
                account_name(plugin_id.as_str(), alias.as_str()).as_str(),
                " already exists; rerun with --force to overwrite",
            ),
            AccountError::NoActiveCredentials { plugin_id } => join3(
                "plugin ",
                plugin_id.as_str(),
                " has no active credentials to capture; run the native login first",
            ),
            AccountError::AccountNotFound { plugin_id, alias } => join3(
                "account ",
                account_name(plugin_id.as_str(), alias.as_str()).as_str(),
                " does not exist",
            ),
            AccountError::AliasUnchanged { plugin_id, alias } => join3(
                "account ",
                account_name(plugin_id.as_str(), alias.as_str()).as_str(),
                " cannot be renamed to the same alias",
            ),
            AccountError::TargetAliasExists { plugin_id, alias } => join3(
                "account ",
                account_name(plugin_id.as_str(), alias.as_str()).as_str(),
                " already exists",
            ),
            AccountError::RemoveActiveRequiresForce { plugin_id, alias } => join3(
                "cannot remove active account ",
                account_name(plugin_id.as_str(), alias.as_str()).as_str(),
                " without --force",
            ),
            AccountError::BackupPathNotDirectory { path } => join3(
                "account backup path ",
                path.as_str(),
                " is not a directory",
            ),
            AccountError::RemovePath { path } => join2("failed to remove path ", path.as_str()),
            AccountError::RenamePath { from, to } => {
                let mut out = join3("failed to rename path from ", from.as_str(), " to ");
                out.append(to.as_str());
                out
            },
        }
    }
}

/// The name by which an account is called: its plugin and its alias.
pub fn account_name(plugin_id: &str, alias: &str) -> (r: String)
    ensures
        r@ == named(plugin_id@, alias@),
{
    join3(plugin_id, "/", alias)
}

// ---------------------------------------------------------------------------------------------
// Listing
// ---------------------------------------------------------------------------------------------
/// Whether `id` passes a filter that asks for one plugin or for none in particular.
pub open spec fn passes(filter: Option<Seq<char>>, id: Seq<char>) -> bool {
    filter is None || filter == Some(id)
}

fn passes_filter(filter: &Option<String>, id: &str) -> (r: bool)
    ensures
        r == passes(filter.deep_view(), id@),
{
    match filter {
        Some(wanted) => same(wanted.as_str(), id),
        None => true,
    }
}

pub open spec fn record_of(
    plugin: Seq<char>,
    alias: Seq<char>,
    account: AccountView,
    active: Option<Seq<char>>,
) -> RecordView {
    RecordView {
        plugin_id: plugin,
        alias,
        email: account.email,
        org_name: account.org_name,
        plan: account.plan,
        added_at: account.added_at,
        last_used_at: account.last_used_at,
        active: active == Some(alias),
    }
}

/// The records of one plugin, in the order of their aliases.
pub open spec fn plugin_records(
    plugin: Seq<char>,
    accounts: Map<Seq<char>, AccountView>,
    active: Option<Seq<char>>,
) -> Seq<RecordView> {
    sorted_items(accounts).map_values(
        |e: (Seq<char>, AccountView)| record_of(plugin, e.0, e.1, active),
    )
}

/// The records of the plugins in `items` that pass the filter.
pub open spec fn records_in(
    items: Seq<(Seq<char>, Map<Seq<char>, AccountView>)>,
    r: RegistryView,
    filter: Option<Seq<char>>,
) -> Seq<RecordView>
    decreases items.len(),
{
    if items.len() == 0 {
        seq![]
    } else {
        let front = records_in(items.drop_last(), r, filter);
        let (plugin, accounts) = items.last();
        if passes(filter, plugin) {
            front + plugin_records(plugin, accounts, active_alias(r, plugin))
        } else {
            front
        }
    }
}

/// The saved accounts, in the order of plugin and alias.
pub open spec fn records_of(r: RegistryView, filter: Option<Seq<char>>) -> Seq<RecordView> {
    records_in(sorted_items(r.accounts), r, filter)
}

/// The saved accounts, of one plugin or of all.
pub fn list_accounts(registry: &Registry, plugin_filter: &Option<String>) -> (r: Vec<AccountRecord>)
    ensures
        r.deep_view() == records_of(registry.deep_view(), plugin_filter.deep_view()),
{
    let ghost view = registry.deep_view();
    let ghost filter = plugin_filter.deep_view();
    let mut out: Vec<AccountRecord> = Vec::new();
    let n = registry.accounts.len();
    let ghost items = registry.accounts.items();
    let mut i: usize = 0;
    assert(out.deep_view() == records_in(items.take(0), view, filter));
    while i < n
        invariant
            i <= n,
            n == items.len(),
            items == registry.accounts.items(),
            view == registry.deep_view(),
            filter == plugin_filter.deep_view(),
            out.deep_view() == records_in(items.take(i as int), view, filter),
        decreases n - i,
    {
        let plugin_id = registry.accounts.key_at(i);
        assert(items.take(i + 1).drop_last() == items.take(i as int));
        assert(items.take(i + 1).last() == items[i as int]);
        if passes_filter(plugin_filter, plugin_id.as_str()) {
            let active = registry.active_alias(plugin_id.as_str());
            let accounts = registry.accounts.value_at(i);
            let ghost front = out.deep_view();
            let m = accounts.len();
            let ghost inner = accounts.items();
            let ghost more = plugin_records(plugin_id@, accounts.deep_view(), active.deep_view());
            let mut j: usize = 0;
            assert(front + more.take(0) == front);
            while j < m
                invariant
                    j <= m,
                    m == inner.len(),
                    inner == accounts.items(),
                    inner == sorted_items(accounts.deep_view()),
                    more == plugin_records(
                        plugin_id@,
                        accounts.deep_view(),
                        active.deep_view(),
                    ),
                    out.deep_view() == front + more.take(j as int),
                decreases m - j,
            {
                let ghost before = out.deep_view();
                let alias = accounts.key_at(j);
                let metadata = accounts.value_at(j);
                let is_active = match &active {
                    Some(a) => same(a.as_str(), alias.as_str()),
                    None => false,
                };
                out.push(
                    AccountRecord {
                        plugin_id: plugin_id.clone(),
                        alias: alias.clone(),
                        email: copy_opt(&metadata.email),
                        org_name: copy_opt(&metadata.org_name),
                        plan: copy_opt(&metadata.plan),
                        added_at: metadata.added_at,
                        last_used_at: metadata.last_used_at,
                        active: is_active,
                    },
                );
                j = j + 1;
                assert(out.deep_view() == before.push(more[j - 1]));
                assert(more.take(j as int) == more.take(j - 1).push(more[j - 1]));
            }
            assert(more.take(j as int) == more);
        }
        i = i + 1;
    }
    assert(items.take(i as int) == items);
    out
}

/// The ids of the plugins of a catalog.
pub open spec fn catalog_ids(plugins: Seq<LoadedManifest>) -> Seq<Seq<char>> {
    plugins.map_values(|l: LoadedManifest| l.manifest.id@)
}

/// Whether a plugin is known: it has accounts, it has an active alias, or it is in the catalog.
pub open spec fn known(r: RegistryView, plugins: Seq<LoadedManifest>, id: Seq<char>) -> bool {
    r.accounts.contains_key(id) || r.active.contains_key(id) || catalog_ids(plugins).contains(id)
}

/// Whether the texts rise strictly.
pub open spec fn rising(list: Seq<Seq<char>>) -> bool {
    forall|i: int, j: int| 0 <= i < j < list.len() ==> text_lt(#[trigger] list[i], #[trigger] list[j])
}

/// The known plugins that pass a filter, each once and in their order.
pub open spec fn lists_known(
    list: Seq<Seq<char>>,
    r: RegistryView,
    plugins: Seq<LoadedManifest>,
    filter: Option<Seq<char>>,
) -> bool {
    &&& rising(list)
    &&& forall|id: Seq<char>|
        #[trigger] list.contains(id) <==> known(r, plugins, id) && passes(filter, id)
}

fn add_ids(set: &mut TextMap<String>, ids: &Vec<String>, filter: &Option<String>)
    ensures
        forall|id: Seq<char>|
            #[trigger] final(set).deep_view().contains_key(id) <==> old(
                set,
            ).deep_view().contains_key(id) || (ids.deep_view().contains(id) && passes(
                filter.deep_view(),
                id,
            )),
{
    let ghost before = set.deep_view();
    let ghost all = ids.deep_view();
    let ghost f = filter.deep_view();
    let mut i: usize = 0;
    while i < ids.len()
        invariant
            i <= ids.len(),
            all == ids.deep_view(),
            f == filter.deep_view(),
            forall|id: Seq<char>|
                #[trigger] set.deep_view().contains_key(id) <==> before.contains_key(id) || (
                all.take(i as int).contains(id) && passes(f, id)),
        decreases ids.len() - i,
    {
        let ghost now = set.deep_view();
        let ghost here = all.take(i as int);
        if passes_filter(filter, ids[i].as_str()) {
            set.insert(ids[i].clone(), String::new());
        }
        proof {
            let next = all.take(i + 1);
            assert(next == here.push(all[i as int]));
            assert forall|id: Seq<char>| #[trigger]
                set.deep_view().contains_key(id) <==> before.contains_key(id) || (next.contains(id)
                    && passes(f, id)) by {
                if here.contains(id) {
                    let k = choose|k: int| 0 <= k < here.len() && here[k] == id;
                    assert(next[k] == id);
                }
                if next.contains(id) && id != all[i as int] {
                    let k = choose|k: int| 0 <= k < next.len() && next[k] == id;
                    assert(here[k] == id);
                }
                if id == all[i as int] {
                    assert(next[i as int] == id);
                }
                assert(now.contains_key(id) <==> before.contains_key(id) || (here.contains(id)
                    && passes(f, id)));
            }
        }
        i = i + 1;
    }
    assert(all.take(i as int) == all);
}

/// The known plugins that pass a filter, each once and in their order.
pub fn plugin_ids(
    registry: &Registry,
    plugins: &Vec<LoadedManifest>,
    plugin_filter: &Option<String>,
) -> (r: Vec<String>)
    ensures
        lists_known(
            r.deep_view(),
            registry.deep_view(),
            plugins@,
            plugin_filter.deep_view(),
        ),
{
    let mut set: TextMap<String> = TextMap::new();
    let with_accounts = registry.accounts.keys();
    let with_active = registry.active.keys();
    let mut in_catalog: Vec<String> = Vec::new();
    let ghost ids = catalog_ids(plugins@);
    let mut i: usize = 0;
    while i < plugins.len()
        invariant
            i <= plugins.len(),
            ids == catalog_ids(plugins@),
            in_catalog.deep_view() == ids.take(i as int),
        decreases plugins.len() - i,
    {
        let ghost before = in_catalog.deep_view();
        in_catalog.push(plugins[i].manifest.id.clone());
        i = i + 1;
        assert(in_catalog.deep_view() == before.push(ids[i - 1]));
        assert(ids.take(i as int) == ids.take(i - 1).push(ids[i - 1]));
    }
    assert(ids.take(i as int) == ids);
    add_ids(&mut set, &with_accounts, plugin_filter);
    add_ids(&mut set, &with_active, plugin_filter);
    add_ids(&mut set, &in_catalog, plugin_filter);
    let out = set.keys();
    proof {
        let view = registry.deep_view();
        let f = plugin_filter.deep_view();
        lemma_keys(registry.accounts.items(), with_accounts.deep_view());
        lemma_keys(registry.active.items(), with_active.deep_view());
        lemma_keys(set.items(), out.deep_view());
        assert forall|id: Seq<char>| #[trigger]
            out.deep_view().contains(id) <==> known(view, plugins@, id) && passes(f, id) by {
            assert(out.deep_view().contains(id) <==> set.deep_view().contains_key(id));
            assert(with_accounts.deep_view().contains(id) <==> view.accounts.contains_key(id));
            assert(with_active.deep_view().contains(id) <==> view.active.contains_key(id));
        }
    }
    out
}

/// The keys of sorted items rise strictly, and are those of the map.
proof fn lemma_keys<W>(items: Seq<(Seq<char>, W)>, keys: Seq<Seq<char>>)
    requires
        strictly_sorted(items),
        keys == items.map_values(|e: (Seq<char>, W)| e.0),
    ensures
        rising(keys),
        forall|id: Seq<char>| #[trigger] keys.contains(id) <==> map_of(items).contains_key(id),
{
    lemma_map_of(items);
    assert forall|i: int, j: int| 0 <= i < j < keys.len() implies text_lt(
        #[trigger] keys[i],
        #[trigger] keys[j],
    ) by {
        assert(text_lt(items[i].0, items[j].0));
    }
    assert forall|id: Seq<char>| #[trigger] keys.contains(id) <==> map_of(items).contains_key(id) by {
        if keys.contains(id) {
            let k = choose|k: int| 0 <= k < keys.len() && keys[k] == id;
            assert(items[k].0 == id);
        }
        if map_of(items).contains_key(id) {
            let k = choose|k: int| 0 <= k < items.len() && #[trigger] items[k].0 == id;
            assert(keys[k] == id);
        }
    }
}

/// The active account of a plugin.
pub open spec fn current_of(r: RegistryView, plugin: Seq<char>) -> CurrentView {
    let alias = active_alias(r, plugin);
    let account = match alias {
        Some(a) => account_of(r, plugin, a),
        None => None,
    };
    match account {
        Some(a) => CurrentView {
            plugin_id: plugin,
            alias,
            email: a.email,
            org_name: a.org_name,
            plan: a.plan,
            last_used_at: a.last_used_at,
            managed: true,
        },
        None => CurrentView {
            plugin_id: plugin,
            alias,
            email: None,
            org_name: None,
            plan: None,
            last_used_at: None,
            managed: false,
        },
    }
}

/// The active account of each known plugin that passes a filter.
pub fn current_accounts(
    registry: &Registry,
    plugins: &Vec<LoadedManifest>,
    plugin_filter: &Option<String>,
) -> (r: Vec<CurrentAccountRecord>)
    ensures
        lists_known(
            r.deep_view().map_values(|c: CurrentView| c.plugin_id),
            registry.deep_view(),
            plugins@,
            plugin_filter.deep_view(),
        ),
        forall|i: int|
            0 <= i < r.len() ==> #[trigger] r.deep_view()[i] == current_of(
                registry.deep_view(),
                r.deep_view()[i].plugin_id,
            ),
{
    let ids = plugin_ids(registry, plugins, plugin_filter);
    let ghost all = ids.deep_view();
    let ghost view = registry.deep_view();
    let mut out: Vec<CurrentAccountRecord> = Vec::new();
    let mut i: usize = 0;
    while i < ids.len()
        invariant
            i <= ids.len(),
            all == ids.deep_view(),
            view == registry.deep_view(),
            out.len() == i,
            forall|j: int| 0 <= j < i ==> #[trigger] out.deep_view()[j] == current_of(view, all[j]),
        decreases ids.len() - i,
    {
        let plugin_id = ids[i].clone();
        let ghost before = out.deep_view();
        let alias = registry.active_alias(plugin_id.as_str());
        let metadata = match &alias {
            Some(a) => registry.account(plugin_id.as_str(), a.as_str()),
            None => None,
        };
        let record = match metadata {
            Some(item) => CurrentAccountRecord {
                plugin_id,
                alias: copy_opt(&alias),
                email: copy_opt(&item.email),
                org_name: copy_opt(&item.org_name),
                plan: copy_opt(&item.plan),
                last_used_at: item.last_used_at,
                managed: true,
            },
            None => CurrentAccountRecord {
                plugin_id,
                alias: copy_opt(&alias),
                email: None,
                org_name: None,
                plan: None,
                last_used_at: None,
                managed: false,
            },
        };
        assert(record.deep_view() == current_of(view, all[i as int]));
        out.push(record);
        i = i + 1;
        assert(out.deep_view() == before.push(current_of(view, all[i - 1])));
    }
    assert(out.deep_view().map_values(|c: CurrentView| c.plugin_id) == all);
    out
}

// ---------------------------------------------------------------------------------------------
// Renaming
// ---------------------------------------------------------------------------------------------
/// The registry with an account under another alias; the active alias follows.
pub open spec fn renamed(
    r: RegistryView,
    plugin: Seq<char>,
    old_alias: Seq<char>,
    new_alias: Seq<char>,
) -> RegistryView {
    let account = AccountView { alias: new_alias, ..r.accounts[plugin][old_alias] };
    let moved = RegistryView {
        accounts: r.accounts.insert(
            plugin,
            r.accounts[plugin].remove(old_alias).insert(new_alias, account),
        ),
        ..r
    };
    if active_alias(r, plugin) == Some(old_alias) {
        with_active(moved, plugin, Some(new_alias))
    } else {
        moved
    }
}

/// How an account is renamed: its backup is moved where there is one, then the registry is written.
/// Where the registry cannot be written, the backup is moved back.
pub struct RenamePlan {
    pub backup: Option<(String, String)>,
    pub registry: Registry,
    pub report: RenameAccountReport,
}

/// What keeps an account from being renamed, if anything: the first of these that holds.
pub open spec fn rename_problem(
    r: RegistryView,
    plugin: Seq<char>,
    old_alias: Seq<char>,
    new_alias: Seq<char>,
    accounts_dir: Seq<char>,
    old_backup: PathState,
    new_backup: PathState,
    e: AccountError,
) -> bool {
    if old_alias == new_alias {
        e matches AccountError::AliasUnchanged { plugin_id, alias } && plugin_id@ == plugin
            && alias@ == old_alias
    } else if !has_account(r, plugin, old_alias) {
        e matches AccountError::AccountNotFound { plugin_id, alias } && plugin_id@ == plugin
            && alias@ == old_alias
    } else if has_account(r, plugin, new_alias) {
        e matches AccountError::TargetAliasExists { plugin_id, alias } && plugin_id@ == plugin
            && alias@ == new_alias
    } else if old_backup != PathState::Missing && old_backup != PathState::Directory {
        e matches AccountError::BackupPathNotDirectory { path } && path@ == account_dir_of(
            accounts_dir,
            plugin,
            old_alias,
        )
    } else if new_backup != PathState::Missing {
        e matches AccountError::TargetAliasExists { plugin_id, alias } && plugin_id@ == plugin
            && alias@ == new_alias
    } else {
        false
    }
}

/// How the account `old_alias` is renamed to `new_alias`, given what stands where the two aliases
/// have their backups.
pub fn rename_account(
    paths: &AswitchPaths,
    registry: Registry,
    plugin_id: &str,
    old_alias: &str,
    new_alias: &str,
    old_backup: PathState,
    new_backup: PathState,
) -> (r: Result<RenamePlan, AccountError>)
    ensures
        match r {
            Ok(plan) => {
                &&& old_alias@ != new_alias@
                &&& has_account(registry.deep_view(), plugin_id@, old_alias@)
                &&& !has_account(registry.deep_view(), plugin_id@, new_alias@)
                &&& old_backup == PathState::Missing || old_backup == PathState::Directory
                &&& new_backup == PathState::Missing
                &&& plan.registry.deep_view() == renamed(
                    registry.deep_view(),
                    plugin_id@,
                    old_alias@,
                    new_alias@,
                )
                &&& match plan.backup {
                    Some((from, to)) => {
                        &&& old_backup == PathState::Directory
                        &&& from@ == account_dir_of(paths.accounts_dir@, plugin_id@, old_alias@)
                        &&& to@ == account_dir_of(paths.accounts_dir@, plugin_id@, new_alias@)
                    },
                    None => old_backup == PathState::Missing,
                }
                &&& plan.report.plugin_id@ == plugin_id@
                &&& plan.report.old_alias@ == old_alias@
                &&& plan.report.new_alias@ == new_alias@
                &&& plan.report.active_updated == (active_alias(registry.deep_view(), plugin_id@)
                    == Some(old_alias@))
            },
            Err(e) => rename_problem(
                registry.deep_view(),
                plugin_id@,
                old_alias@,
                new_alias@,
                paths.accounts_dir@,
                old_backup,
                new_backup,
                e,
            ),
        },
{
    let ghost before = registry.deep_view();
    if same(old_alias, new_alias) {
        return Err(
            AccountError::AliasUnchanged {
                plugin_id: plugin_id.to_owned(),
                alias: old_alias.to_owned(),
            },
        );
    }
    let mut account = match registry.account(plugin_id, old_alias) {
        Some(item) => item.duplicate(),
        None => {
            return Err(
                AccountError::AccountNotFound {
                    plugin_id: plugin_id.to_owned(),
                    alias: old_alias.to_owned(),
                },
            );
        },
    };
    if registry.account(plugin_id, new_alias).is_some() {
        return Err(
            AccountError::TargetAliasExists {
                plugin_id: plugin_id.to_owned(),
                alias: new_alias.to_owned(),
            },
        );
    }
    let old_path = account_dir(paths, plugin_id, old_alias);
    if old_backup != PathState::Missing && old_backup != PathState::Directory {
        return Err(AccountError::BackupPathNotDirectory { path: old_path });
    }
    if new_backup != PathState::Missing {
        return Err(
            AccountError::TargetAliasExists {
                plugin_id: plugin_id.to_owned(),
                alias: new_alias.to_owned(),
            },
        );
    }
    let backup = if old_backup == PathState::Directory {
        Some((old_path, account_dir(paths, plugin_id, new_alias)))
    } else {
        None
    };
    let active_updated = match registry.active_alias(plugin_id) {
        Some(alias) => same(alias.as_str(), old_alias),
        None => false,
    };
    let mut registry = registry;
    account.alias = new_alias.to_owned();
    let mut items = registry.take_accounts(plugin_id);
    let _ = items.remove(old_alias);
    items.insert(new_alias.to_owned(), account);
    let ghost inner = items.deep_view();
    registry.accounts.insert(plugin_id.to_owned(), items);
    assert(registry.deep_view().accounts == before.accounts.insert(plugin_id@, inner));
    if active_updated {
        registry.set_active(plugin_id, Some(new_alias.to_owned()));
    }
    Ok(
        RenamePlan {
            backup,
            registry,
            report: RenameAccountReport {
                plugin_id: plugin_id.to_owned(),
                old_alias: old_alias.to_owned(),
                new_alias: new_alias.to_owned(),
                active_updated,
            },
        },
    )
}

/// Renaming keeps a registry consistent.
pub proof fn renaming_keeps_the_registry_consistent(
    r: RegistryView,
    plugin: Seq<char>,
    old_alias: Seq<char>,
    new_alias: Seq<char>,
)
    requires
        consistent(r),
        has_account(r, plugin, old_alias),
        !has_account(r, plugin, new_alias),
    ensures
        consistent(renamed(r, plugin, old_alias, new_alias)),
        !has_account(renamed(r, plugin, old_alias, new_alias), plugin, old_alias),
        has_account(renamed(r, plugin, old_alias, new_alias), plugin, new_alias),
{
    let next = renamed(r, plugin, old_alias, new_alias);
    assert forall|p: Seq<char>, a: Seq<char>|
        #![trigger next.accounts[p][a]]
        has_account(next, p, a) implies next.accounts[p][a].alias == a by {
        if p != plugin || a != new_alias {
            assert(has_account(r, p, a));
            assert(r.accounts[p][a].alias == a);
        }
    }
    assert forall|p: Seq<char>| (#[trigger] active_alias(next, p)) is Some implies has_account(
        next,
        p,
        active_alias(next, p)->0,
    ) by {
        let a = active_alias(next, p)->0;
        if p == plugin && active_alias(r, plugin) == Some(old_alias) {
        } else {
            assert(active_alias(r, p) == active_alias(next, p));
            assert(has_account(r, p, a));
        }
    }
}

/// Renaming an account and renaming it back restores the registry.
pub proof fn renaming_back_restores_the_registry(
    r: RegistryView,
    plugin: Seq<char>,
    old_alias: Seq<char>,
    new_alias: Seq<char>,
)
    requires
        consistent(r),
        has_account(r, plugin, old_alias),
        !has_account(r, plugin, new_alias),
    ensures
        renamed(renamed(r, plugin, old_alias, new_alias), plugin, new_alias, old_alias) == r,
{
    let there = renamed(r, plugin, old_alias, new_alias);
    let back = renamed(there, plugin, new_alias, old_alias);
    assert(r.accounts[plugin][old_alias].alias == old_alias);
    assert(back.accounts[plugin] =~= r.accounts[plugin]);
    assert(back.accounts =~= r.accounts);
    if active_alias(r, plugin) == Some(old_alias) {
        assert(back.active =~= r.active);
    } else {
        if active_alias(r, plugin) == Some(new_alias) {
            assert(has_account(r, plugin, new_alias));
        }
        assert(back.active =~= r.active);
    }
}

// ---------------------------------------------------------------------------------------------
// Removing
// ---------------------------------------------------------------------------------------------
/// The registry without an account; a plugin without accounts is dropped, and an account that was
/// active leaves none active.
pub open spec fn removed(r: RegistryView, plugin: Seq<char>, alias: Seq<char>) -> RegistryView {
    let rest = r.accounts[plugin].remove(alias);
    let without = RegistryView {
        accounts: if rest == Map::<Seq<char>, AccountView>::empty() {
            r.accounts.remove(plugin)
        } else {
            r.accounts.insert(plugin, rest)
        },
        ..r
    };
    if active_alias(r, plugin) == Some(alias) {
        with_active(without, plugin, None)
    } else {
        without
    }
}

/// How an account is removed: its backup is deleted where there is one, the registry is written,
/// and the directory of the plugin is deleted where it is left empty.
pub struct RemovePlan {
    pub backup: Option<String>,
    pub registry: Registry,
    pub plugin_dir: String,
    pub report: RemoveAccountReport,
}

/// How the account `alias` is removed, given what stands where it has its backup.
pub fn remove_account(
    paths: &AswitchPaths,
    registry: Registry,
    plugin_id: &str,
    alias: &str,
    force: bool,
    backup: PathState,
) -> (r: Result<RemovePlan, AccountError>)
    ensures
        ({
            let before = registry.deep_view();
            let was_active = active_alias(before, plugin_id@) == Some(alias@);
            let dir = account_dir_of(paths.accounts_dir@, plugin_id@, alias@);
            match r {
                Ok(plan) => {
                    &&& has_account(before, plugin_id@, alias@)
                    &&& force || !was_active
                    &&& match plan.backup {
                        Some(path) => backup == PathState::Directory && path@ == dir,
                        None => backup == PathState::Missing,
                    }
                    &&& plan.registry.deep_view() == removed(before, plugin_id@, alias@)
                    &&& plan.plugin_dir@ == joined(paths.accounts_dir@, plugin_id@)
                    &&& plan.report.plugin_id@ == plugin_id@
                    &&& plan.report.alias@ == alias@
                    &&& plan.report.removed_backup == (backup == PathState::Directory)
                    &&& plan.report.was_active == was_active
                },
                Err(AccountError::AccountNotFound { plugin_id: p, alias: a }) => p@ == plugin_id@
                    && a@ == alias@ && !has_account(before, plugin_id@, alias@),
                Err(AccountError::RemoveActiveRequiresForce { plugin_id: p, alias: a }) => p@
                    == plugin_id@ && a@ == alias@ && has_account(before, plugin_id@, alias@)
                    && was_active && !force,
                Err(AccountError::BackupPathNotDirectory { path }) => path@ == dir && has_account(
                    before,
                    plugin_id@,
                    alias@,
                ) && (force || !was_active) && (backup == PathState::File || backup
                    == PathState::Other),
                Err(_) => false,
            }
        }),
{
    let ghost before = registry.deep_view();
    if registry.account(plugin_id, alias).is_none() {
        return Err(
            AccountError::AccountNotFound {
                plugin_id: plugin_id.to_owned(),
                alias: alias.to_owned(),
            },
        );
    }
    let was_active = match registry.active_alias(plugin_id) {
        Some(active) => same(active.as_str(), alias),
        None => false,
    };
    if was_active && !force {
        return Err(
            AccountError::RemoveActiveRequiresForce {
                plugin_id: plugin_id.to_owned(),
                alias: alias.to_owned(),
            },
        );
    }
    let dir = account_dir(paths, plugin_id, alias);
    let found = match backup {
        PathState::Missing => None,
        PathState::Directory => Some(dir),
        _ => {
            return Err(AccountError::BackupPathNotDirectory { path: dir });
        },
    };
    let mut registry = registry;
    let mut items = registry.take_accounts(plugin_id);
    let _ = items.remove(alias);
    let ghost rest = items.deep_view();
    if !items.is_empty() {
        registry.accounts.insert(plugin_id.to_owned(), items);
        assert(registry.deep_view().accounts == before.accounts.insert(plugin_id@, rest));
    }
    if was_active {
        registry.set_active(plugin_id, None);
    }
    Ok(
        RemovePlan {
            backup: found,
            registry,
            plugin_dir: join_path(paths.accounts_dir.as_str(), plugin_id),
            report: RemoveAccountReport {
                plugin_id: plugin_id.to_owned(),
                alias: alias.to_owned(),
                removed_backup: backup == PathState::Directory,
                was_active,
            },
        },
    )
}

/// Removing an account takes that account away and no other, and keeps a registry consistent.
pub proof fn removing_keeps_the_registry_consistent(
    r: RegistryView,
    plugin: Seq<char>,
    alias: Seq<char>,
)
    requires
        consistent(r),
        has_account(r, plugin, alias),
    ensures
        consistent(removed(r, plugin, alias)),
        active_alias(removed(r, plugin, alias), plugin) != Some(alias),
        forall|p: Seq<char>, a: Seq<char>|
            #[trigger] account_of(removed(r, plugin, alias), p, a) == (if p == plugin && a
                == alias {
                None
            } else {
                account_of(r, p, a)
            }),
{
    let next = removed(r, plugin, alias);
    let rest = r.accounts[plugin].remove(alias);
    assert forall|p: Seq<char>, a: Seq<char>| #[trigger] account_of(next, p, a) == (if p == plugin
        && a == alias {
        None
    } else {
        account_of(r, p, a)
    }) by {
        if p == plugin && a != alias && r.accounts[plugin].contains_key(a) {
            assert(rest.contains_key(a));
            assert(rest != Map::<Seq<char>, AccountView>::empty());
        }
    }
    assert forall|p: Seq<char>, a: Seq<char>|
        #![trigger next.accounts[p][a]]
        has_account(next, p, a) implies next.accounts[p][a].alias == a by {
        assert(account_of(next, p, a) == Some(next.accounts[p][a]));
        assert(has_account(r, p, a));
        assert(r.accounts[p][a].alias == a);
    }
    assert forall|p: Seq<char>| (#[trigger] active_alias(next, p)) is Some implies has_account(
        next,
        p,
        active_alias(next, p)->0,
    ) by {
        let a = active_alias(next, p)->0;
        assert(active_alias(r, p) == Some(a));
        assert(has_account(r, p, a));
        assert(account_of(next, p, a) == account_of(r, p, a));
    }
}

// ---------------------------------------------------------------------------------------------
// Saving
// ---------------------------------------------------------------------------------------------
/// Whether an account may be saved under `alias`: not over another one, unless that is forced.
pub fn check_new_account(registry: &Registry, plugin_id: &str, alias: &str, force: bool) -> (r: Result<
    (),
    AccountError,
>)
    ensures
        match r {
            Ok(_) => force || !has_account(registry.deep_view(), plugin_id@, alias@),
            Err(AccountError::AccountAlreadyExists { plugin_id: p, alias: a }) => p@ == plugin_id@
                && a@ == alias@ && !force && has_account(
                registry.deep_view(),
                plugin_id@,
                alias@,
            ),
            Err(_) => false,
        },
{
    if registry.account(plugin_id, alias).is_some() && !force {
        return Err(
            AccountError::AccountAlreadyExists {
                plugin_id: plugin_id.to_owned(),
                alias: alias.to_owned(),
            },
        );
    }
    Ok(())
}

/// What the service of a plugin added to an identity, or why it could not.
pub enum PlanLookup {
    NotAsked,
    Found { project_id: Option<String>, tier_name: Option<String> },
    Failed(String),
}

/// Whether the service of a plugin is asked for the plan of a new account.
pub fn asks_for_plan(plugin_id: &str) -> (r: bool)
    ensures
        r == (plugin_id@ == GEMINI_PLUGIN_ID@),
{
    same(plugin_id, GEMINI_PLUGIN_ID)
}

/// The account that is saved under `alias`: new, or in place of the one that was there, whose day of
/// arrival it keeps.
pub open spec fn saved_account(
    existing: Option<AccountView>,
    alias: Seq<char>,
    email: Option<Seq<char>>,
    org_name: Option<Seq<char>>,
    plan: Option<Seq<char>>,
    saved_at: Timestamp,
) -> AccountView {
    AccountView {
        alias,
        email,
        org_name,
        plan,
        added_at: match existing {
            Some(account) => account.added_at,
            None => saved_at,
        },
        last_used_at: Some(saved_at),
    }
}

/// The registry with an account saved and active.
pub open spec fn added(
    r: RegistryView,
    plugin: Seq<char>,
    alias: Seq<char>,
    email: Option<Seq<char>>,
    org_name: Option<Seq<char>>,
    plan: Option<Seq<char>>,
    saved_at: Timestamp,
) -> RegistryView {
    with_active(
        with_account(
            r,
            plugin,
            saved_account(
                account_of(r, plugin, alias),
                alias,
                email,
                org_name,
                plan,
                saved_at,
            ),
        ),
        plugin,
        Some(alias),
    )
}

/// The first of two optional texts that is there.
pub open spec fn or_else(a: Option<Seq<char>>, b: Option<Seq<char>>) -> Option<Seq<char>> {
    if a is Some {
        a
    } else {
        b
    }
}

fn first_of(a: Option<String>, b: Option<String>) -> (r: Option<String>)
    ensures
        r.deep_view() == or_else(a.deep_view(), b.deep_view()),
{
    match a {
        Some(x) => Some(x),
        None => b,
    }
}

/// The registry and the report after an account was captured: it is saved with the identity that
/// was found, completed by what the service says, and is the active one.
pub fn finish_add_account(
    registry: &mut Registry,
    plugin_id: &str,
    alias: &str,
    identity: Identity,
    warnings: Vec<String>,
    lookup: PlanLookup,
    saved_at: Timestamp,
) -> (r: AddAccountReport)
    ensures
        r.plugin_id@ == plugin_id@,
        r.alias@ == alias@,
        r.overwritten == has_account(old(registry).deep_view(), plugin_id@, alias@),
        r.saved_at == saved_at,
        r.identity.email.deep_view() == identity.email.deep_view(),
        r.identity.extra.deep_view() == identity.extra.deep_view(),
        r.identity.org_name.deep_view() == (match lookup {
            PlanLookup::Found { project_id, .. } => or_else(
                identity.org_name.deep_view(),
                project_id.deep_view(),
            ),
            _ => identity.org_name.deep_view(),
        }),
        r.identity.plan.deep_view() == (match lookup {
            PlanLookup::Found { tier_name, .. } => or_else(
                identity.plan.deep_view(),
                tier_name.deep_view(),
            ),
            _ => identity.plan.deep_view(),
        }),
        r.warnings.deep_view() == (match lookup {
            PlanLookup::Failed(error) => warnings.deep_view().push(
                "failed to fetch live Gemini plan metadata: "@ + error@,
            ),
            _ => warnings.deep_view(),
        }),
        final(registry).deep_view() == added(
            old(registry).deep_view(),
            plugin_id@,
            alias@,
            r.identity.email.deep_view(),
            r.identity.org_name.deep_view(),
            r.identity.plan.deep_view(),
            saved_at,
        ),
{
    let mut identity = identity;
    let mut warnings = warnings;
    match lookup {
        PlanLookup::NotAsked => {},
        PlanLookup::Found { project_id, tier_name } => {
            identity.org_name = first_of(copy_opt(&identity.org_name), project_id);
            identity.plan = first_of(copy_opt(&identity.plan), tier_name);
        },
        PlanLookup::Failed(error) => {
            let ghost before = warnings.deep_view();
            let message = join2("failed to fetch live Gemini plan metadata: ", error.as_str());
            warnings.push(message);
            assert(warnings.deep_view() == before.push(message@));
        },
    }
    let (overwritten, added_at) = match registry.account(plugin_id, alias) {
        Some(account) => (true, account.added_at),
        None => (false, saved_at),
    };
    let account = AccountMetadata {
        alias: alias.to_owned(),
        email: copy_opt(&identity.email),
        org_name: copy_opt(&identity.org_name),
        plan: copy_opt(&identity.plan),
        added_at,
        last_used_at: Some(saved_at),
    };
    registry.put_account(plugin_id, account);
    registry.set_active(plugin_id, Some(alias.to_owned()));
    AddAccountReport {
        plugin_id: plugin_id.to_owned(),
        alias: alias.to_owned(),
        overwritten,
        saved_at,
        identity,
        warnings,
    }
}

/// Saving an account keeps a registry consistent, makes the account active, and touches no other
/// account.
pub proof fn adding_keeps_the_registry_consistent(
    r: RegistryView,
    plugin: Seq<char>,
    alias: Seq<char>,
    email: Option<Seq<char>>,
    org_name: Option<Seq<char>>,
    plan: Option<Seq<char>>,
    saved_at: Timestamp,
)
    requires
        consistent(r),
    ensures
        consistent(added(r, plugin, alias, email, org_name, plan, saved_at)),
        active_alias(added(r, plugin, alias, email, org_name, plan, saved_at), plugin) == Some(
            alias,
        ),
        forall|p: Seq<char>, a: Seq<char>|
            (p != plugin || a != alias) ==> #[trigger] account_of(
                added(r, plugin, alias, email, org_name, plan, saved_at),
                p,
                a,
            ) == account_of(r, p, a),
{
    let next = added(r, plugin, alias, email, org_name, plan, saved_at);
    assert forall|p: Seq<char>, a: Seq<char>| (p != plugin || a != alias) implies #[trigger] account_of(
        next,
        p,
        a,
    ) == account_of(r, p, a) by {}
    assert forall|p: Seq<char>, a: Seq<char>|
        #![trigger next.accounts[p][a]]
        has_account(next, p, a) implies next.accounts[p][a].alias == a by {
        if p != plugin || a != alias {
            assert(account_of(next, p, a) == account_of(r, p, a));
            assert(r.accounts[p][a].alias == a);
        }
    }
    assert forall|p: Seq<char>| (#[trigger] active_alias(next, p)) is Some implies has_account(
        next,
        p,
        active_alias(next, p)->0,
    ) by {
        if p != plugin {
            assert(active_alias(r, p) == active_alias(next, p));
            assert(has_account(r, p, active_alias(r, p)->0));
        }
    }
}

// ---------------------------------------------------------------------------------------------
// Status
// ---------------------------------------------------------------------------------------------
/// The first plugin with the id `id`.
pub open spec fn manifest_of(plugins: Seq<LoadedManifest>, id: Seq<char>) -> Option<LoadedManifest>
    decreases plugins.len(),
{
    if plugins.len() == 0 {
        None
    } else if plugins[0].manifest.id@ == id {
        Some(plugins[0])
    } else {
        manifest_of(plugins.drop_first(), id)
    }
}

/// The first plugin with the id `id`.
pub fn find_manifest<'a>(plugins: &'a Vec<LoadedManifest>, id: &str) -> (r: Option<
    &'a LoadedManifest,
>)
    ensures
        match r {
            Some(l) => manifest_of(plugins@, id@) == Some(*l),
            None => manifest_of(plugins@, id@) is None,
        },
{
    let ghost all = plugins@;
    let mut i: usize = 0;
    assert(all.subrange(0, all.len() as int) == all);
    while i < plugins.len()
        invariant
            i <= plugins.len(),
            all == plugins@,
            manifest_of(all, id@) == manifest_of(all.subrange(i as int, all.len() as int), id@),
        decreases plugins.len() - i,
    {
        assert(all.subrange(i as int, all.len() as int)[0] == all[i as int]);
        assert(all.subrange(i as int, all.len() as int).drop_first() == all.subrange(
            i + 1,
            all.len() as int,
        ));
        if same(plugins[i].manifest.id.as_str(), id) {
            return Some(&plugins[i]);
        }
        i = i + 1;
    }
    None
}

/// The last time that one of the accounts was used.
pub open spec fn latest_use(items: Seq<(Seq<char>, AccountView)>) -> Option<Timestamp>
    decreases items.len(),
{
    if items.len() == 0 {
        None
    } else {
        later_of(latest_use(items.drop_last()), items.last().1.last_used_at)
    }
}

/// The state of one plugin.
pub open spec fn status_of(r: RegistryView, plugins: Seq<LoadedManifest>, id: Seq<char>) -> StatusRowView {
    let found = manifest_of(plugins, id);
    let accounts = sorted_items(accounts_of(r, id));
    StatusRowView {
        plugin_id: id,
        display_name: match found {
            Some(l) => Some(l.manifest.display_name@),
            None => None,
        },
        version: match found {
            Some(l) => Some(l.manifest.version@),
            None => None,
        },
        source: match found {
            Some(_) => Some("user"@),
            None => None,
        },
        loaded: found is Some,
        active_alias: active_alias(r, id),
        account_count: accounts.len(),
        last_used_at: latest_use(accounts),
        warnings: match found {
            Some(l) => l.warnings.deep_view(),
            None => seq![],
        },
    }
}

/// The last switch of all plugins: the latest use of any account.
pub open spec fn last_switch(rows: Seq<StatusRowView>) -> Option<Timestamp>
    decreases rows.len(),
{
    if rows.len() == 0 {
        None
    } else {
        later_of(last_switch(rows.drop_last()), rows.last().last_used_at)
    }
}

fn latest_of(accounts: &TextMap<AccountMetadata>) -> (r: (usize, Option<Timestamp>))
    ensures
        r.0 == sorted_items(accounts.deep_view()).len(),
        r.1 == latest_use(sorted_items(accounts.deep_view())),
{
    let n = accounts.len();
    let ghost items = accounts.items();
    let mut latest: Option<Timestamp> = None;
    let mut i: usize = 0;
    while i < n
        invariant
            i <= n,
            n == items.len(),
            items == accounts.items(),
            latest == latest_use(items.take(i as int)),
        decreases n - i,
    {
        latest = later(latest, accounts.value_at(i).last_used_at);
        i = i + 1;
        assert(items.take(i as int).drop_last() == items.take(i - 1));
        assert(items.take(i as int).last() == items[i - 1]);
    }
    assert(items.take(i as int) == items);
    (n, latest)
}

fn plugin_source_label(source: PluginSource) -> (r: String)
    ensures
        r@ == "user"@,
{
    match source {
        PluginSource::User => "user".to_owned(),
    }
}

/// The state of one plugin.
fn status_row(registry: &Registry, plugins: &Vec<LoadedManifest>, plugin_id: &str) -> (r:
    PluginStatusRow)
    ensures
        r.deep_view() == status_of(registry.deep_view(), plugins@, plugin_id@),
{
    let (account_count, last_used_at) = match registry.accounts.get(plugin_id) {
        Some(accounts) => latest_of(accounts),
        None => latest_of(&TextMap::new()),
    };
    let active = registry.active_alias(plugin_id);
    match find_manifest(plugins, plugin_id) {
        Some(item) => PluginStatusRow {
            plugin_id: plugin_id.to_owned(),
            display_name: Some(item.manifest.display_name.clone()),
            version: Some(item.manifest.version.clone()),
            source: Some(plugin_source_label(item.source)),
            loaded: true,
            active_alias: active,
            account_count,
            last_used_at,
            warnings: copy_all(&item.warnings),
        },
        None => {
            let warnings: Vec<String> = Vec::new();
            assert(warnings.deep_view() == Seq::<Seq<char>>::empty());
            PluginStatusRow {
                plugin_id: plugin_id.to_owned(),
                display_name: None,
                version: None,
                source: None,
                loaded: false,
                active_alias: active,
                account_count,
                last_used_at,
                warnings,
            }
        },
    }
}

pub open spec fn status_error_views(errors: Seq<PluginStatusError>) -> Seq<(Seq<char>, Seq<char>)> {
    errors.map_values(|e: PluginStatusError| (e.path@, e.error@))
}

/// The state of the program: a row for each known plugin, and what went wrong with the others.
pub fn status(registry: &Registry, catalog: &PluginCatalog) -> (r: StatusReport)
    ensures
        r.registry_version == registry.version,
        lists_known(
            r.plugins.deep_view().map_values(|row: StatusRowView| row.plugin_id),
            registry.deep_view(),
            catalog.plugins@,
            None,
        ),
        forall|i: int|
            0 <= i < r.plugins.len() ==> #[trigger] r.plugins.deep_view()[i] == status_of(
                registry.deep_view(),
                catalog.plugins@,
                r.plugins.deep_view()[i].plugin_id,
            ),
        r.last_switch_at == last_switch(r.plugins.deep_view()),
        r.warnings.deep_view() == catalog.warnings.deep_view(),
        status_error_views(r.errors@) == failure_views(catalog.errors@),
{
    let ids = plugin_ids(registry, &catalog.plugins, &None);
    let ghost all = ids.deep_view();
    let ghost view = registry.deep_view();
    let mut plugins: Vec<PluginStatusRow> = Vec::new();
    let mut last_switch_at: Option<Timestamp> = None;
    let mut i: usize = 0;
    while i < ids.len()
        invariant
            i <= ids.len(),
            all == ids.deep_view(),
            view == registry.deep_view(),
            plugins.len() == i,
            forall|j: int|
                0 <= j < i ==> #[trigger] plugins.deep_view()[j] == status_of(
                    view,
                    catalog.plugins@,
                    all[j],
                ),
            last_switch_at == last_switch(plugins.deep_view()),
        decreases ids.len() - i,
    {
        let ghost before = plugins.deep_view();
        let row = status_row(registry, &catalog.plugins, ids[i].as_str());
        last_switch_at = later(last_switch_at, row.last_used_at);
        plugins.push(row);
        i = i + 1;
        assert(plugins.deep_view() == before.push(row.deep_view()));
        assert(plugins.deep_view().drop_last() == before);
    }
    assert(plugins.deep_view().map_values(|row: StatusRowView| row.plugin_id) == all);
    let mut errors: Vec<PluginStatusError> = Vec::new();
    let ghost wanted = failure_views(catalog.errors@);
    let mut k: usize = 0;
    while k < catalog.errors.len()
        invariant
            k <= catalog.errors.len(),
            wanted == failure_views(catalog.errors@),
            status_error_views(errors@) == wanted.take(k as int),
        decreases catalog.errors.len() - k,
    {
        let ghost before = status_error_views(errors@);
        errors.push(
            PluginStatusError {
                path: catalog.errors[k].path.clone(),
                error: catalog.errors[k].error.clone(),
            },
        );
        k = k + 1;
        assert(status_error_views(errors@) == before.push(wanted[k - 1]));
        assert(wanted.take(k as int) == wanted.take(k - 1).push(wanted[k - 1]));
    }
    assert(wanted.take(k as int) == wanted);
    StatusReport {
        registry_version: registry.version,
        last_switch_at,
        plugins,
        warnings: copy_all(&catalog.warnings),
        errors,
    }
}

} // verus!
