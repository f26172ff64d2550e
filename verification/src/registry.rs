//! The registry: which accounts are saved for each plugin, and which of them is active.
use vstd::prelude::*;

use crate::paths::{AswitchPaths, PathsError};
use crate::text::{copy_opt, decimal_of, join2, join3};
use crate::text_map::{Duplicate, TextMap};
use crate::path::joined;
use crate::time::{Timestamp, in_calendar, stamp_of, write_stamp};

verus! {

/// The saved accounts of each plugin, by alias, and the alias that is active.
pub struct Registry {
    pub version: u32,
    pub active: TextMap<Option<String>>,
    pub accounts: TextMap<TextMap<AccountMetadata>>,
}

/// What is known of a saved account.
pub struct AccountMetadata {
    pub alias: String,
    pub email: Option<String>,
    pub org_name: Option<String>,
    pub plan: Option<String>,
    pub added_at: Timestamp,
    pub last_used_at: Option<Timestamp>,
}

pub struct AccountView {
    pub alias: Seq<char>,
    pub email: Option<Seq<char>>,
    pub org_name: Option<Seq<char>>,
    pub plan: Option<Seq<char>>,
    pub added_at: Timestamp,
    pub last_used_at: Option<Timestamp>,
}

pub struct RegistryView {
    pub version: u32,
    pub active: Map<Seq<char>, Option<Seq<char>>>,
    pub accounts: Map<Seq<char>, Map<Seq<char>, AccountView>>,
}

impl DeepView for AccountMetadata {
    type V = AccountView;

    open spec fn deep_view(&self) -> AccountView {
        AccountView {
            alias: self.alias@,
            email: self.email.deep_view(),
            org_name: self.org_name.deep_view(),
            plan: self.plan.deep_view(),
            added_at: self.added_at,
            last_used_at: self.last_used_at,
        }
    }
}

impl Duplicate for AccountMetadata {
    fn duplicate(&self) -> (r: Self) {
        AccountMetadata {
            alias: self.alias.clone(),
            email: copy_opt(&self.email),
            org_name: copy_opt(&self.org_name),
            plan: copy_opt(&self.plan),
            added_at: self.added_at,
            last_used_at: self.last_used_at,
        }
    }
}

impl DeepView for Registry {
    type V = RegistryView;

    open spec fn deep_view(&self) -> RegistryView {
        RegistryView {
            version: self.version,
            active: self.active.deep_view(),
            accounts: self.accounts.deep_view(),
        }
    }
}

impl Duplicate for Registry {
    fn duplicate(&self) -> (r: Self) {
        Registry {
            version: self.version,
            active: self.active.duplicate(),
            accounts: self.accounts.duplicate(),
        }
    }
}

/// Why the registry could not be read or written.
pub enum RegistryError {
    Paths(PathsError),
    Read { path: String },
    Backup { from: String, to: String },
    Write { path: String },
    Rename { from: String, to: String },
    Serialize,
}

impl RegistryError {
    pub open spec fn text(&self) -> Seq<char> {
        match *self {
            RegistryError::Paths(_) => "failed to prepare aswitch directories"@,
            RegistryError::Read { path } => "failed to read registry file "@ + path@,
            RegistryError::Backup { from, to } => "failed to backup corrupted registry from "@
                + from@ + " to "@ + to@,
            RegistryError::Write { path } => "failed to write registry file "@ + path@,
            RegistryError::Rename { from, to } => "failed to rename registry temp file from "@
                + from@ + " to "@ + to@,
            RegistryError::Serialize => "failed to serialize registry"@,
        }
    }

    /// The error in words.
    pub fn message(&self) -> (r: String)
        ensures
            r@ == self.text(),
    {
        match self {
            RegistryError::Paths(_) => "failed to prepare aswitch directories".to_owned(),
            RegistryError::Read { path } => join2("failed to read registry file ", path.as_str()),
            RegistryError::Backup { from, to } => {
                let mut out = join3(
                    "failed to backup corrupted registry from ",
                    from.as_str(),
                    " to ",
                );
                out.append(to.as_str());
                out
            },
            RegistryError::Write { path } => join2("failed to write registry file ", path.as_str()),
            RegistryError::Rename { from, to } => {
                let mut out = join3(
                    "failed to rename registry temp file from ",
                    from.as_str(),
                    " to ",
                );
                out.append(to.as_str());
                out
            },
            RegistryError::Serialize => "failed to serialize registry".to_owned(),
        }
    }
}

// ---------------------------------------------------------------------------------------------
// What a registry says
// ---------------------------------------------------------------------------------------------
/// The registry without any account.
pub open spec fn empty_registry() -> RegistryView {
    RegistryView { version: 1, active: Map::empty(), accounts: Map::empty() }
}

/// Whether an account is saved under `alias`.
pub open spec fn has_account(r: RegistryView, plugin: Seq<char>, alias: Seq<char>) -> bool {
    r.accounts.contains_key(plugin) && r.accounts[plugin].contains_key(alias)
}

/// The account that is saved under `alias`.
pub open spec fn account_of(r: RegistryView, plugin: Seq<char>, alias: Seq<char>) -> Option<
    AccountView,
> {
    if has_account(r, plugin, alias) {
        Some(r.accounts[plugin][alias])
    } else {
        None
    }
}

/// The active alias of a plugin.
pub open spec fn active_alias(r: RegistryView, plugin: Seq<char>) -> Option<Seq<char>> {
    if r.active.contains_key(plugin) {
        r.active[plugin]
    } else {
        None
    }
}

/// The accounts of a plugin by alias.
pub open spec fn accounts_of(r: RegistryView, plugin: Seq<char>) -> Map<Seq<char>, AccountView> {
    if r.accounts.contains_key(plugin) {
        r.accounts[plugin]
    } else {
        Map::empty()
    }
}

/// A registry is consistent where every account is saved under its own alias, and every active
/// alias is that of a saved account.
pub open spec fn consistent(r: RegistryView) -> bool {
    &&& forall|plugin: Seq<char>, alias: Seq<char>|
        #![trigger r.accounts[plugin][alias]]
        has_account(r, plugin, alias) ==> r.accounts[plugin][alias].alias == alias
    &&& forall|plugin: Seq<char>|
        (#[trigger] active_alias(r, plugin)) is Some ==> has_account(
            r,
            plugin,
            active_alias(r, plugin)->0,
        )
}

/// `r` with `account` saved under its alias.
pub open spec fn with_account(r: RegistryView, plugin: Seq<char>, account: AccountView) -> RegistryView {
    RegistryView {
        accounts: r.accounts.insert(plugin, accounts_of(r, plugin).insert(account.alias, account)),
        ..r
    }
}

/// `r` with `alias` active for `plugin`.
pub open spec fn with_active(
    r: RegistryView,
    plugin: Seq<char>,
    alias: Option<Seq<char>>,
) -> RegistryView {
    RegistryView { active: r.active.insert(plugin, alias), ..r }
}

impl Registry {
    /// A registry without any account.
    pub fn empty() -> (r: Registry)
        ensures
            r.deep_view() == empty_registry(),
    {
        Registry { version: 1, active: TextMap::new(), accounts: TextMap::new() }
    }

    /// The account that is saved under `alias`.
    pub fn account(&self, plugin: &str, alias: &str) -> (r: Option<&AccountMetadata>)
        ensures
            r.deep_view() == account_of(self.deep_view(), plugin@, alias@),
    {
        match self.accounts.get(plugin) {
            Some(items) => items.get(alias),
            None => None,
        }
    }

    /// The active alias of a plugin.
    pub fn active_alias(&self, plugin: &str) -> (r: Option<String>)
        ensures
            r.deep_view() == active_alias(self.deep_view(), plugin@),
    {
        match self.active.get(plugin) {
            Some(alias) => copy_opt(alias),
            None => None,
        }
    }

    /// The accounts of a plugin, taken out of the registry.
    pub(crate) fn take_accounts(&mut self, plugin: &str) -> (r: TextMap<AccountMetadata>)
        ensures
            r.deep_view() == accounts_of(old(self).deep_view(), plugin@),
            final(self).deep_view() == (RegistryView {
                accounts: old(self).deep_view().accounts.remove(plugin@),
                ..old(self).deep_view()
            }),
    {
        match self.accounts.remove(plugin) {
            Some(items) => items,
            None => TextMap::new(),
        }
    }

    /// Saves `account` under its alias.
    pub(crate) fn put_account(&mut self, plugin: &str, account: AccountMetadata)
        ensures
            final(self).deep_view() == with_account(
                old(self).deep_view(),
                plugin@,
                account.deep_view(),
            ),
    {
        let ghost before = self.deep_view();
        let mut items = self.take_accounts(plugin);
        let key = account.alias.clone();
        items.insert(key, account);
        let ghost inserted = items.deep_view();
        self.accounts.insert(plugin.to_owned(), items);
        assert(self.deep_view().accounts == before.accounts.insert(plugin@, inserted));
    }

    /// Makes `alias` the active one.
    pub(crate) fn set_active(&mut self, plugin: &str, alias: Option<String>)
        ensures
            final(self).deep_view() == with_active(
                old(self).deep_view(),
                plugin@,
                alias.deep_view(),
            ),
    {
        self.active.insert(plugin.to_owned(), alias);
    }

    /// What to start from, given what reading the registry file gave: what the file says, an empty
    /// registry where there is no file, and a fresh one where the file cannot be understood. In the
    /// last case the file has to be set aside and the fresh registry written.
    pub fn load(read: RegistryRead) -> (r: LoadedRegistry)
        ensures
            r.deep_view() == loaded(read.deep_view()),
    {
        match read {
            RegistryRead::Missing => LoadedRegistry { registry: Registry::empty(), reset: false },
            RegistryRead::Parsed(registry) => LoadedRegistry { registry, reset: false },
            RegistryRead::Corrupt => LoadedRegistry { registry: Registry::empty(), reset: true },
        }
    }

    /// How a registry that is written as `payload` is saved: a line end is added, all of it is
    /// written to a file of its own, and that file takes the place of the old one.
    pub fn save_atomic(paths: &AswitchPaths, pid: u32, payload: Vec<u8>) -> (r: RegistrySave)
        ensures
            r.temp_path@ == paths.temp_path(pid),
            r.contents@ == payload@.push(10),
            r.path@ == paths.registry_file@,
    {
        let mut contents = payload;
        contents.push(10);
        RegistrySave {
            temp_path: paths.registry_temp_path(pid),
            contents,
            path: paths.registry_file.clone(),
        }
    }
}

/// What is written where when the registry is saved: `contents` to `temp_path`, which is then renamed
/// to `path`.
pub struct RegistrySave {
    pub temp_path: String,
    pub contents: Vec<u8>,
    pub path: String,
}

/// Where a registry file that cannot be understood is set aside at the time `now`, which the
/// calendar has to cover.
pub fn corrupted_backup_path(paths: &AswitchPaths, now: Timestamp) -> (r: Option<String>)
    ensures
        match r {
            Some(path) => stamp_of(now.secs, now.nanos) is Some && path@ == joined(
                paths.root@,
                "registry.json.bak."@ + stamp_of(now.secs, now.nanos)->0,
            ),
            None => !in_calendar(now),
        },
        r is Some <==> in_calendar(now),
{
    match write_stamp(now) {
        Some(stamp) => Some(paths.registry_backup_path(stamp.as_str())),
        None => None,
    }
}

/// What reading the registry file gave.
pub enum RegistryRead {
    Missing,
    Parsed(Registry),
    Corrupt,
}

pub enum ReadView {
    Missing,
    Parsed(RegistryView),
    Corrupt,
}

impl DeepView for RegistryRead {
    type V = ReadView;

    open spec fn deep_view(&self) -> ReadView {
        match *self {
            RegistryRead::Missing => ReadView::Missing,
            RegistryRead::Parsed(registry) => ReadView::Parsed(registry.deep_view()),
            RegistryRead::Corrupt => ReadView::Corrupt,
        }
    }
}

/// The registry to start from; `reset` says that the file has to be set aside and written anew.
pub struct LoadedRegistry {
    pub registry: Registry,
    pub reset: bool,
}

pub struct LoadedView {
    pub registry: RegistryView,
    pub reset: bool,
}

impl DeepView for LoadedRegistry {
    type V = LoadedView;

    open spec fn deep_view(&self) -> LoadedView {
        LoadedView { registry: self.registry.deep_view(), reset: self.reset }
    }
}

/// What to start from, given what reading the registry file gave.
pub open spec fn loaded(read: ReadView) -> LoadedView {
    match read {
        ReadView::Missing => LoadedView { registry: empty_registry(), reset: false },
        ReadView::Parsed(registry) => LoadedView { registry, reset: false },
        ReadView::Corrupt => LoadedView { registry: empty_registry(), reset: true },
    }
}

/// The files once `contents` was written to `temp_path` and that file was renamed to `path`.
pub open spec fn written(
    files: Map<Seq<char>, Seq<u8>>,
    temp_path: Seq<char>,
    contents: Seq<u8>,
    path: Seq<char>,
) -> Map<Seq<char>, Seq<u8>> {
    files.insert(temp_path, contents).remove(temp_path).insert(path, contents)
}

/// What reading the registry file gives, where `decode` understands what is written.
pub open spec fn read_from(
    files: Map<Seq<char>, Seq<u8>>,
    path: Seq<char>,
    decode: spec_fn(Seq<u8>) -> Option<RegistryView>,
) -> ReadView {
    if files.contains_key(path) {
        match decode(files[path]) {
            Some(registry) => ReadView::Parsed(registry),
            None => ReadView::Corrupt,
        }
    } else {
        ReadView::Missing
    }
}

/// A registry that is saved, over an old one or where there was none, is what is read afterwards,
/// whatever the way to write registries down is, as long as it can be undone. The file that it was
/// first written to is gone, and every other file is as it was.
pub proof fn a_saved_registry_is_read_back(
    paths: AswitchPaths,
    pid: u32,
    files: Map<Seq<char>, Seq<u8>>,
    registry: RegistryView,
    encode: spec_fn(RegistryView) -> Seq<u8>,
    decode: spec_fn(Seq<u8>) -> Option<RegistryView>,
)
    requires
        paths.laid_out(),
        decode(encode(registry).push(10)) == Some(registry),
    ensures
        ({
            let after = written(
                files,
                paths.temp_path(pid),
                encode(registry).push(10),
                paths.registry_file@,
            );
            &&& loaded(read_from(after, paths.registry_file@, decode)) == (LoadedView {
                registry,
                reset: false,
            })
            &&& !after.contains_key(paths.temp_path(pid))
            &&& forall|p: Seq<char>|
                p != paths.registry_file@ && p != paths.temp_path(pid) ==> (#[trigger] after.contains_key(
                    p,
                ) <==> files.contains_key(p)) && (files.contains_key(p) ==> after[p] == files[p])
        }),
{
    reveal_strlit("registry.json");
    reveal_strlit("registry.json.tmp.");
    let temp = "registry.json.tmp."@ + decimal_of(pid as nat);
    assert(temp[0] == 'r');
    assert(joined(paths.root@, temp).len() > joined(paths.root@, "registry.json"@).len());
}

/// A registry file that cannot be understood is taken for an empty registry, and is to be set aside.
pub proof fn an_unreadable_registry_is_reset(
    files: Map<Seq<char>, Seq<u8>>,
    path: Seq<char>,
    decode: spec_fn(Seq<u8>) -> Option<RegistryView>,
)
    requires
        files.contains_key(path),
        decode(files[path]) is None,
    ensures
        loaded(read_from(files, path, decode)) == (LoadedView {
            registry: empty_registry(),
            reset: true,
        }),
{
}

impl Default for Registry {
    fn default() -> (r: Self)
        ensures
            r.deep_view() == empty_registry(),
    {
        Registry::empty()
    }
}

/// The empty registry is consistent.
pub proof fn empty_registry_is_consistent()
    ensures
        consistent(empty_registry()),
{
}

} // verus!
