//! Switching the active account of a plugin: the live credential and the files that go with it are
//! put aside for the account that was active, and those of the chosen account take their place. A
//! switch that fails on the way is rolled back.
use vstd::prelude::*;

use crate::path::{
    backup_path_of, backup_relative_path, expand_user_path_from, join_path, joined, parent,
    parent_of, temp_sibling, temp_sibling_path, user_path,
};
use crate::paths::{AswitchPaths, PathsError};
use crate::plugin::catalog::ManifestLoadError;
use crate::plugin::{AuxFile, AuxFileKind, Manifest};
use crate::registry::{
    Registry, RegistryError, RegistryView, account_of, active_alias, consistent, has_account,
    with_active, AccountView,
};
use crate::store::{StoreError, StoreResolveError};
use crate::text::{copy_opt, join2, join3};
use crate::text_map::Duplicate;
use crate::time::Timestamp;

verus! {

/// How long a command waits for the lock of the program, in milliseconds.
pub const LOCK_TIMEOUT_MS: u64 = 5000;

/// The permissions of the files that backups are written to.
pub const FILE_MODE: u32 = 0o600;

// ---------------------------------------------------------------------------------------------
// Failures
// ---------------------------------------------------------------------------------------------
/// Why a step of a switch failed.
pub enum SwitchFailure {
    Paths(PathsError),
    Manifest(ManifestLoadError),
    Registry(RegistryError),
    StoreResolve(StoreResolveError),
    Store(StoreError),
    PluginNotFound { plugin_id: String, path: String },
    TargetAccountNotFound { plugin_id: String, alias: String },
    TargetBackupMissing { plugin_id: String, alias: String, path: String },
    MissingRequiredPath { path: String },
    ExpectedFile { path: String },
    ExpectedDirectory { path: String },
    ReadFile { path: String },
    CreateDirectory { path: String },
    WriteFile { path: String },
    RenamePath { from: String, to: String },
    RemovePath { path: String },
    SimulatedFailureAfterPrimaryWrite,
}

impl SwitchFailure {
    pub open spec fn text(&self) -> Seq<char> {
        match *self {
            SwitchFailure::Paths(_) => "failed to resolve aswitch paths"@,
            SwitchFailure::Manifest(_) => "failed to load plugin manifest"@,
            SwitchFailure::Registry(_) => "failed to load or save registry"@,
            SwitchFailure::StoreResolve(_) => "failed to resolve credential store"@,
            SwitchFailure::Store(_) => "credential store operation failed"@,
            SwitchFailure::PluginNotFound { plugin_id, path } => "plugin "@ + plugin_id@
                + " manifest not found at "@ + path@,
            SwitchFailure::TargetAccountNotFound { plugin_id, alias } => "target account "@
                + plugin_id@ + "/"@ + alias@ + " does not exist in registry"@,
            SwitchFailure::TargetBackupMissing { plugin_id, alias, path } => "account backup for "@
                + plugin_id@ + "/"@ + alias@ + " is missing at "@ + path@,
            SwitchFailure::MissingRequiredPath { path } => "required auxiliary path "@ + path@
                + " is missing"@,
            SwitchFailure::ExpectedFile { path } => "expected a file at "@ + path@,
            SwitchFailure::ExpectedDirectory { path } => "expected a directory at "@ + path@,
            SwitchFailure::ReadFile { path } => "failed to read file "@ + path@,
            SwitchFailure::CreateDirectory { path } => "failed to create directory "@ + path@,
            SwitchFailure::WriteFile { path } => "failed to write file "@ + path@,
            SwitchFailure::RenamePath { from, to } => "failed to rename path from "@ + from@
                + " to "@ + to@,
            SwitchFailure::RemovePath { path } => "failed to remove path "@ + path@,
            SwitchFailure::SimulatedFailureAfterPrimaryWrite =>
                "simulated failure after writing active credentials"@,
        }
    }

    /// The failure in words.
    pub fn message(&self) -> (r: String)
        ensures
            r@ == self.text(),
    {
        match self {
            SwitchFailure::Paths(_) => "failed to resolve aswitch paths".to_owned(),
            SwitchFailure::Manifest(_) => "failed to load plugin manifest".to_owned(),
            SwitchFailure::Registry(_) => "failed to load or save registry".to_owned(),
            SwitchFailure::StoreResolve(_) => "failed to resolve credential store".to_owned(),
            SwitchFailure::Store(_) => "credential store operation failed".to_owned(),
            SwitchFailure::PluginNotFound { plugin_id, path } => {
                let mut out = join3("plugin ", plugin_id.as_str(), " manifest not found at ");
                out.append(path.as_str());
                out
            },
            SwitchFailure::TargetAccountNotFound { plugin_id, alias } => {
                let mut out = join3("target account ", plugin_id.as_str(), "/");
                out.append(alias.as_str());
                out.append(" does not exist in registry");
                out
            },
            SwitchFailure::TargetBackupMissing { plugin_id, alias, path } => {
                let mut out = join3("account backup for ", plugin_id.as_str(), "/");
                out.append(alias.as_str());
                out.append(" is missing at ");
                out.append(path.as_str());
                out
            },
            SwitchFailure::MissingRequiredPath { path } => join3(
                "required auxiliary path ",
                path.as_str(),
                " is missing",
            ),
            SwitchFailure::ExpectedFile { path } => join2("expected a file at ", path.as_str()),
            SwitchFailure::ExpectedDirectory { path } => join2(
                "expected a directory at ",
                path.as_str(),
            ),
            SwitchFailure::ReadFile { path } => join2("failed to read file ", path.as_str()),
            SwitchFailure::CreateDirectory { path } => join2(
                "failed to create directory ",
                path.as_str(),
            ),
            SwitchFailure::WriteFile { path } => join2("failed to write file ", path.as_str()),
            SwitchFailure::RenamePath { from, to } => {
                let mut out = join3("failed to rename path from ", from.as_str(), " to ");
                out.append(to.as_str());
                out
            },
            SwitchFailure::RemovePath { path } => join2("failed to remove path ", path.as_str()),
            SwitchFailure::SimulatedFailureAfterPrimaryWrite =>
                "simulated failure after writing active credentials".to_owned(),
        }
    }
}

/// How a switch failed: before anything live was touched, or afterwards and rolled back, or
/// afterwards and not even rolled back.
pub enum SwitchError {
    Failed(SwitchFailure),
    RollbackSucceeded { cause: Box<SwitchFailure> },
    RollbackFailed { cause: Box<SwitchFailure>, rollback: String },
}

impl SwitchError {
    pub open spec fn text(&self) -> Seq<char> {
        match *self {
            SwitchError::Failed(failure) => failure.text(),
            SwitchError::RollbackSucceeded { cause } => "switch failed but rollback completed: "@
                + cause.text(),
            SwitchError::RollbackFailed { cause, rollback } =>
                "switch failed and rollback failed: "@ + cause.text() + "; rollback error: "@
                + rollback@,
        }
    }

    /// The error in words.
    pub fn message(&self) -> (r: String)
        ensures
            r@ == self.text(),
    {
        match self {
            SwitchError::Failed(failure) => failure.message(),
            SwitchError::RollbackSucceeded { cause } => join2(
                "switch failed but rollback completed: ",
                cause.message().as_str(),
            ),
            SwitchError::RollbackFailed { cause, rollback } => {
                let mut out = join3(
                    "switch failed and rollback failed: ",
                    cause.message().as_str(),
                    "; rollback error: ",
                );
                out.append(rollback.as_str());
                out
            },
        }
    }

    /// The status that the program ends with.
    pub fn exit_code(&self) -> (r: i32)
        ensures
            r == (match *self {
                SwitchError::RollbackSucceeded { .. } => 10i32,
                SwitchError::RollbackFailed { .. } => 11,
                SwitchError::Failed(_) => 1,
            }),
    {
        match self {
            SwitchError::RollbackSucceeded { .. } => 10,
            SwitchError::RollbackFailed { .. } => 11,
            SwitchError::Failed(_) => 1,
        }
    }
}

// ---------------------------------------------------------------------------------------------
// What is saved of an account
// ---------------------------------------------------------------------------------------------
/// The credential of an account and the files that go with it.
pub struct StoredAccountState {
    pub credentials: Option<Vec<u8>>,
    pub aux: Vec<StoredAuxState>,
}

pub struct StoredAuxState {
    pub active_path: String,
    pub backup_relative_path: String,
    pub content: SnapshotContent,
}

pub enum SnapshotContent {
    Missing,
    File(Vec<u8>),
    Dir(DirectorySnapshot),
}

pub struct DirectorySnapshot {
    pub files: Vec<DirectoryFile>,
}

pub struct DirectoryFile {
    pub relative_path: String,
    pub bytes: Vec<u8>,
}

pub struct StateView {
    pub credentials: Option<Seq<u8>>,
    pub aux: Seq<AuxView>,
}

pub struct AuxView {
    pub active_path: Seq<char>,
    pub backup_relative_path: Seq<char>,
    pub content: ContentView,
}

pub enum ContentView {
    Missing,
    File(Seq<u8>),
    Dir(Seq<(Seq<char>, Seq<u8>)>),
}

impl DeepView for SnapshotContent {
    type V = ContentView;

    open spec fn deep_view(&self) -> ContentView {
        match *self {
            SnapshotContent::Missing => ContentView::Missing,
            SnapshotContent::File(bytes) => ContentView::File(bytes@),
            SnapshotContent::Dir(snapshot) => ContentView::Dir(
                snapshot.files@.map_values(|f: DirectoryFile| (f.relative_path@, f.bytes@)),
            ),
        }
    }
}

impl DeepView for StoredAuxState {
    type V = AuxView;

    open spec fn deep_view(&self) -> AuxView {
        AuxView {
            active_path: self.active_path@,
            backup_relative_path: self.backup_relative_path@,
            content: self.content.deep_view(),
        }
    }
}

impl DeepView for StoredAccountState {
    type V = StateView;

    open spec fn deep_view(&self) -> StateView {
        StateView {
            credentials: match self.credentials {
                Some(bytes) => Some(bytes@),
                None => None,
            },
            aux: self.aux.deep_view(),
        }
    }
}

impl StoredAccountState {
    /// The credential itself.
    pub fn primary_credentials(&self) -> (r: Option<&Vec<u8>>)
        ensures
            match r {
                Some(bytes) => self.deep_view().credentials == Some(bytes@),
                None => self.deep_view().credentials is None,
            },
    {
        match &self.credentials {
            Some(bytes) => Some(bytes),
            None => None,
        }
    }
}

/// What stands at a path.
#[derive(Clone, Copy, Debug, PartialEq, Eq, Structural)]
pub enum PathState {
    Missing,
    File,
    Directory,
    Other,
}

/// How a snapshot of a path is taken.
#[derive(Clone, Copy, Debug, PartialEq, Eq, Structural)]
pub enum SnapshotRead {
    Nothing,
    File,
    Directory,
}

/// How a snapshot is taken of a path that should be of a certain kind and may be required, where it
/// can be taken.
pub open spec fn snapshot_of(kind: AuxFileKind, required: bool, found: PathState) -> Option<
    SnapshotRead,
> {
    match (found, kind) {
        (PathState::Missing, _) => if required {
            None
        } else {
            Some(SnapshotRead::Nothing)
        },
        (PathState::File, AuxFileKind::File) => Some(SnapshotRead::File),
        (PathState::Directory, AuxFileKind::Dir) => Some(SnapshotRead::Directory),
        _ => None,
    }
}

/// How a snapshot is taken of a path that should be of a certain kind and may be required.
pub fn read_snapshot_content(path: &str, kind: AuxFileKind, required: bool, found: PathState) -> (r:
    Result<SnapshotRead, SwitchFailure>)
    ensures
        match r {
            Ok(SnapshotRead::File) => kind == AuxFileKind::File && found == PathState::File,
            Ok(SnapshotRead::Directory) => kind == AuxFileKind::Dir && found
                == PathState::Directory,
            Ok(SnapshotRead::Nothing) => found == PathState::Missing && !required,
            Err(SwitchFailure::MissingRequiredPath { path: p }) => p@ == path@ && found
                == PathState::Missing && required,
            Err(SwitchFailure::ExpectedFile { path: p }) => p@ == path@ && kind
                == AuxFileKind::File && found != PathState::Missing && found != PathState::File,
            Err(SwitchFailure::ExpectedDirectory { path: p }) => p@ == path@ && kind
                == AuxFileKind::Dir && found != PathState::Missing && found
                != PathState::Directory,
            Err(_) => false,
        },
        snapshot_of(kind, required, found) == (match r {
            Ok(read) => Some(read),
            Err(_) => None,
        }),
{
    if found == PathState::Missing {
        if required {
            return Err(SwitchFailure::MissingRequiredPath { path: path.to_owned() });
        }
        return Ok(SnapshotRead::Nothing);
    }
    match kind {
        AuxFileKind::File => if found == PathState::File {
            Ok(SnapshotRead::File)
        } else {
            Err(SwitchFailure::ExpectedFile { path: path.to_owned() })
        },
        AuxFileKind::Dir => if found == PathState::Directory {
            Ok(SnapshotRead::Directory)
        } else {
            Err(SwitchFailure::ExpectedDirectory { path: path.to_owned() })
        },
    }
}

/// What is done to a live path to give it the content of a snapshot.
#[derive(Clone, Copy, Debug, PartialEq, Eq, Structural)]
pub enum LiveStep {
    Remove,
    WriteFile,
    ReplaceDirectory,
}

/// What is done to a live path to give it `content`. A directory is not overwritten by a file.
pub fn apply_content_to_live(path: &str, content: &SnapshotContent, found: PathState) -> (r: Result<
    LiveStep,
    SwitchFailure,
>)
    ensures
        match (*content, r) {
            (SnapshotContent::Missing, Ok(step)) => step == LiveStep::Remove,
            (SnapshotContent::File(_), Ok(step)) => step == LiveStep::WriteFile && found
                != PathState::Directory,
            (SnapshotContent::File(_), Err(SwitchFailure::ExpectedFile { path: p })) => p@ == path@
                && found == PathState::Directory,
            (SnapshotContent::Dir(_), Ok(step)) => step == LiveStep::ReplaceDirectory,
            _ => false,
        },
{
    match content {
        SnapshotContent::Missing => Ok(LiveStep::Remove),
        SnapshotContent::File(_) => if found == PathState::Directory {
            Err(SwitchFailure::ExpectedFile { path: path.to_owned() })
        } else {
            Ok(LiveStep::WriteFile)
        },
        SnapshotContent::Dir(_) => Ok(LiveStep::ReplaceDirectory),
    }
}

// ---------------------------------------------------------------------------------------------
// Where things lie
// ---------------------------------------------------------------------------------------------
/// The directory that an account is saved in.
pub open spec fn account_dir_of(accounts_dir: Seq<char>, plugin: Seq<char>, alias: Seq<char>) -> Seq<
    char,
> {
    joined(joined(accounts_dir, plugin), alias)
}

/// The directory that an account is saved in.
pub fn account_dir(paths: &AswitchPaths, plugin_id: &str, alias: &str) -> (r: String)
    ensures
        r@ == account_dir_of(paths.accounts_dir@, plugin_id@, alias@),
{
    join_path(join_path(paths.accounts_dir.as_str(), plugin_id).as_str(), alias)
}

/// The file in an account's directory that holds its credential.
pub fn primary_credentials_path(account_dir: &str) -> (r: String)
    ensures
        r@ == joined(account_dir@, "primary.creds"@),
{
    join_path(account_dir, "primary.creds")
}

/// Where an account's directory holds the copy of a file.
pub fn aux_backup_path(account_dir: &str, backup_relative_path: &str) -> (r: String)
    ensures
        r@ == joined(joined(account_dir@, "aux"@), backup_relative_path@),
{
    join_path(join_path(account_dir, "aux").as_str(), backup_relative_path)
}

/// The manifest of a plugin.
pub fn manifest_path(paths: &AswitchPaths, plugin_id: &str) -> (r: String)
    ensures
        r@ == joined(joined(paths.plugins_dir@, plugin_id@), "plugin.toml"@),
{
    join_path(join_path(paths.plugins_dir.as_str(), plugin_id).as_str(), "plugin.toml")
}

/// Where the manifest of a plugin is read from; it has to be a file.
pub fn load_plugin_manifest(paths: &AswitchPaths, plugin_id: &str, is_file: bool) -> (r: Result<
    String,
    SwitchFailure,
>)
    ensures
        match r {
            Ok(path) => is_file && path@ == joined(
                joined(paths.plugins_dir@, plugin_id@),
                "plugin.toml"@,
            ),
            Err(SwitchFailure::PluginNotFound { plugin_id: id, path }) => !is_file && id@
                == plugin_id@ && path@ == joined(
                joined(paths.plugins_dir@, plugin_id@),
                "plugin.toml"@,
            ),
            Err(_) => false,
        },
{
    let path = manifest_path(paths, plugin_id);
    if is_file {
        Ok(path)
    } else {
        Err(SwitchFailure::PluginNotFound { plugin_id: plugin_id.to_owned(), path })
    }
}

/// A file or directory that goes with the credential: where it lies, and where a backup keeps it.
pub struct AuxTarget {
    pub active_path: String,
    pub backup_relative_path: String,
    pub kind: AuxFileKind,
    pub required: bool,
}

pub struct AuxTargetView {
    pub active_path: Seq<char>,
    pub backup_relative_path: Seq<char>,
    pub kind: AuxFileKind,
    pub required: bool,
}

impl DeepView for AuxTarget {
    type V = AuxTargetView;

    open spec fn deep_view(&self) -> AuxTargetView {
        AuxTargetView {
            active_path: self.active_path@,
            backup_relative_path: self.backup_relative_path@,
            kind: self.kind,
            required: self.required,
        }
    }
}

pub open spec fn aux_target_of(file: AuxFile, home: Seq<char>) -> AuxTargetView {
    AuxTargetView {
        active_path: user_path(file.path@, home),
        backup_relative_path: backup_path_of(user_path(file.path@, home), home),
        kind: file.kind,
        required: file.required,
    }
}

/// The files and directories that go with the credential of a plugin.
pub fn aux_targets(manifest: &Manifest, home_dir: &str) -> (r: Vec<AuxTarget>)
    ensures
        r.deep_view() == manifest.aux_files@.map_values(|f: AuxFile| aux_target_of(f, home_dir@)),
        r@.len() == manifest.aux_files@.len(),
        forall|i: int|
            0 <= i < r@.len() ==> {
                &&& (#[trigger] r@[i]).active_path@ == user_path(
                    manifest.aux_files@[i].path@,
                    home_dir@,
                )
                &&& r@[i].kind == manifest.aux_files@[i].kind
                &&& r@[i].required == manifest.aux_files@[i].required
            },
{
    let files = &manifest.aux_files;
    let ghost all = files@.map_values(|f: AuxFile| aux_target_of(f, home_dir@));
    let mut out: Vec<AuxTarget> = Vec::new();
    let mut i: usize = 0;
    while i < files.len()
        invariant
            i <= files.len(),
            all == files@.map_values(|f: AuxFile| aux_target_of(f, home_dir@)),
            out.deep_view() == all.take(i as int),
        decreases files.len() - i,
    {
        let ghost before = out.deep_view();
        let active_path = expand_user_path_from(files[i].path.as_str(), home_dir);
        let backup = backup_relative_path(active_path.as_str(), home_dir);
        out.push(
            AuxTarget {
                active_path,
                backup_relative_path: backup,
                kind: files[i].kind,
                required: files[i].required,
            },
        );
        i = i + 1;
        assert(out.deep_view() == before.push(all[i - 1]));
        assert(all.take(i as int) == all.take(i - 1).push(all[i - 1]));
    }
    assert(all.take(i as int) == all);
    assert forall|i: int| 0 <= i < out@.len() implies {
        &&& (#[trigger] out@[i]).active_path@ == user_path(files@[i].path@, home_dir@)
        &&& out@[i].kind == files@[i].kind
        &&& out@[i].required == files@[i].required
    } by {
        assert(out.deep_view()[i] == out@[i].deep_view());
    }
    out
}

/// What to do about the saved credential of the chosen account, given what stands at its place:
/// `true` to read it, `false` to do without it.
pub fn read_primary_backup(
    plugin_id: &str,
    alias: &str,
    primary_path: &str,
    found: PathState,
    allows_missing: bool,
) -> (r: Result<bool, SwitchFailure>)
    ensures
        match r {
            Ok(read) => if read {
                found == PathState::File
            } else {
                found == PathState::Missing && allows_missing
            },
            Err(SwitchFailure::ExpectedFile { path }) => path@ == primary_path@ && (found
                == PathState::Directory || found == PathState::Other),
            Err(SwitchFailure::TargetBackupMissing { plugin_id: id, alias: a, path }) => {
                &&& id@ == plugin_id@
                &&& a@ == alias@
                &&& path@ == primary_path@
                &&& found == PathState::Missing
                &&& !allows_missing
            },
            Err(_) => false,
        },
{
    match found {
        PathState::File => Ok(true),
        PathState::Missing => if allows_missing {
            Ok(false)
        } else {
            Err(
                SwitchFailure::TargetBackupMissing {
                    plugin_id: plugin_id.to_owned(),
                    alias: alias.to_owned(),
                    path: primary_path.to_owned(),
                },
            )
        },
        _ => Err(SwitchFailure::ExpectedFile { path: primary_path.to_owned() }),
    }
}

/// The paths through which a finished copy takes the place of what stands at a destination: the
/// directory that has to exist, and where the old content is kept meanwhile.
pub struct ReplacePlan {
    pub parent: String,
    pub previous: String,
}

/// How a finished copy takes the place of what stands at `destination`.
pub fn replace_path_atomically(destination: &str, pid: u32, nanos: u128) -> (r: Result<
    ReplacePlan,
    SwitchFailure,
>)
    ensures
        match r {
            Ok(plan) => {
                &&& parent_of(destination@) == Some(plan.parent@)
                &&& plan.previous@ == temp_sibling(
                    destination@,
                    "old"@,
                    pid as nat,
                    nanos as nat,
                )
            },
            Err(SwitchFailure::CreateDirectory { path }) => parent_of(destination@) is None && path@
                == destination@,
            Err(_) => false,
        },
{
    match parent(destination) {
        Some(dir) => Ok(
            ReplacePlan {
                parent: dir,
                previous: temp_sibling_path(destination, "old", pid, nanos),
            },
        ),
        None => Err(SwitchFailure::CreateDirectory { path: destination.to_owned() }),
    }
}

// ---------------------------------------------------------------------------------------------
// The switch
// ---------------------------------------------------------------------------------------------
/// What a switch did.
pub struct SwitchReport {
    pub plugin_id: String,
    pub alias: String,
    pub previous_active: Option<String>,
    pub switched_at: Timestamp,
}

/// How far a switch has come, which is also what has to be done next.
pub enum SwitchStage {
    /// Read the live state.
    CaptureLive,
    /// Save the live state for the account that was active.
    SavePrevious,
    /// Read the saved state of the chosen account.
    ReadTarget,
    /// Write that state to the live places.
    ApplyTarget,
    /// Write the registry.
    SaveRegistry { at: Timestamp },
    /// Write the old live state back.
    RollBack { cause: SwitchFailure },
    /// Nothing is left to do.
    Finished(Result<SwitchReport, SwitchError>),
}

/// A switch under way.
pub struct Switch {
    pub plugin_id: String,
    pub alias: String,
    pub registry: Registry,
    pub previous_active: Option<String>,
    pub previous_live: Option<StoredAccountState>,
    pub target: Option<StoredAccountState>,
    pub stage: SwitchStage,
}

/// What came of the last thing that had to be done.
pub enum SwitchEvent {
    Captured(StoredAccountState),
    PreviousSaved,
    TargetRead(StoredAccountState),
    Applied { at: Timestamp },
    RegistrySaved,
    RolledBack,
    Failed(SwitchFailure),
}

/// The registry after a switch: the alias is active, and the account was used at `at`.
pub open spec fn switched(r: RegistryView, plugin: Seq<char>, alias: Seq<char>, at: Timestamp) -> RegistryView {
    let touched = match account_of(r, plugin, alias) {
        Some(account) => RegistryView {
            accounts: r.accounts.insert(
                plugin,
                r.accounts[plugin].insert(
                    alias,
                    AccountView { last_used_at: Some(at), ..account },
                ),
            ),
            ..r
        },
        None => r,
    };
    with_active(touched, plugin, Some(alias))
}

/// Makes `alias` active in the registry, and notes that it was used at `at`.
pub fn mark_switched(registry: &mut Registry, plugin_id: &str, alias: &str, at: Timestamp)
    ensures
        final(registry).deep_view() == switched(
            old(registry).deep_view(),
            plugin_id@,
            alias@,
            at,
        ),
{
    let ghost before = registry.deep_view();
    match registry.account(plugin_id, alias) {
        Some(account) => {
            let mut next = account.duplicate();
            next.last_used_at = Some(at);
            let mut items = registry.take_accounts(plugin_id);
            items.insert(alias.to_owned(), next);
            let ghost inner = items.deep_view();
            registry.accounts.insert(plugin_id.to_owned(), items);
            assert(registry.deep_view().accounts == before.accounts.insert(plugin_id@, inner));
        },
        None => {},
    }
    registry.set_active(plugin_id, Some(alias.to_owned()));
}

/// Starts a switch to `alias`, which has to be saved in the registry.
pub fn begin_switch(registry: Registry, plugin_id: &str, alias: &str) -> (r: Result<
    Switch,
    SwitchFailure,
>)
    ensures
        match r {
            Ok(s) => {
                &&& has_account(registry.deep_view(), plugin_id@, alias@)
                &&& s.plugin_id@ == plugin_id@
                &&& s.alias@ == alias@
                &&& s.registry == registry
                &&& s.previous_active.deep_view() == active_alias(
                    registry.deep_view(),
                    plugin_id@,
                )
                &&& s.previous_live is None
                &&& s.target is None
                &&& s.stage is CaptureLive
            },
            Err(SwitchFailure::TargetAccountNotFound { plugin_id: id, alias: a }) => {
                &&& !has_account(registry.deep_view(), plugin_id@, alias@)
                &&& id@ == plugin_id@
                &&& a@ == alias@
            },
            Err(_) => false,
        },
{
    if registry.account(plugin_id, alias).is_none() {
        return Err(
            SwitchFailure::TargetAccountNotFound {
                plugin_id: plugin_id.to_owned(),
                alias: alias.to_owned(),
            },
        );
    }
    let previous_active = registry.active_alias(plugin_id);
    Ok(
        Switch {
            plugin_id: plugin_id.to_owned(),
            alias: alias.to_owned(),
            registry,
            previous_active,
            previous_live: None,
            target: None,
            stage: SwitchStage::CaptureLive,
        },
    )
}

/// Whether `after` is `before` one step on, for what came of the last thing that had to be done. An
/// event that does not belong to the stage changes nothing.
pub open spec fn steps_to(before: Switch, event: SwitchEvent, after: Switch) -> bool {
    let same = Switch { stage: after.stage, ..before };
    match (before.stage, event) {
        (SwitchStage::CaptureLive, SwitchEvent::Captured(state)) => {
            &&& after == (Switch { previous_live: Some(state), ..same })
            &&& if before.previous_active is Some {
                after.stage is SavePrevious
            } else {
                after.stage is ReadTarget
            }
        },
        (SwitchStage::SavePrevious, SwitchEvent::PreviousSaved) => after == same
            && after.stage is ReadTarget,
        (SwitchStage::ReadTarget, SwitchEvent::TargetRead(state)) => after == (Switch {
            target: Some(state),
            ..same
        }) && after.stage is ApplyTarget,
        (SwitchStage::ApplyTarget, SwitchEvent::Applied { at }) => {
            &&& after == (Switch { registry: after.registry, ..same })
            &&& after.registry.deep_view() == switched(
                before.registry.deep_view(),
                before.plugin_id@,
                before.alias@,
                at,
            )
            &&& after.stage == (SwitchStage::SaveRegistry { at })
        },
        (SwitchStage::SaveRegistry { at }, SwitchEvent::RegistrySaved) => {
            &&& after == same
            &&& after.stage matches SwitchStage::Finished(Ok(report))
            &&& report.plugin_id == before.plugin_id
            &&& report.alias == before.alias
            &&& report.previous_active == before.previous_active
            &&& report.switched_at == at
        },
        (SwitchStage::RollBack { cause }, SwitchEvent::RolledBack) => after == same && after.stage
            == SwitchStage::Finished(
            Err(SwitchError::RollbackSucceeded { cause: Box::new(cause) }),
        ),
        (SwitchStage::RollBack { cause }, SwitchEvent::Failed(failure)) => {
            &&& after == same
            &&& after.stage matches SwitchStage::Finished(
                Err(SwitchError::RollbackFailed { cause: c, rollback }),
            )
            &&& *c == cause
            &&& rollback@ == failure.text()
        },
        (SwitchStage::ApplyTarget, SwitchEvent::Failed(failure)) => after == same && after.stage
            == (SwitchStage::RollBack { cause: failure }),
        (SwitchStage::SaveRegistry { .. }, SwitchEvent::Failed(failure)) => after == same
            && after.stage == (SwitchStage::RollBack { cause: failure }),
        (SwitchStage::Finished(_), _) => after == before,
        (_, SwitchEvent::Failed(failure)) => after == same && after.stage == SwitchStage::Finished(
            Err(SwitchError::Failed(failure)),
        ),
        _ => after == before,
    }
}

/// A switch one step on.
pub fn step_switch(switch: Switch, event: SwitchEvent) -> (r: Switch)
    ensures
        steps_to(switch, event, r),
{
    let mut s = switch;
    match s.stage {
        SwitchStage::CaptureLive => match event {
            SwitchEvent::Captured(state) => {
                s.previous_live = Some(state);
                s.stage = if s.previous_active.is_some() {
                    SwitchStage::SavePrevious
                } else {
                    SwitchStage::ReadTarget
                };
            },
            SwitchEvent::Failed(failure) => {
                s.stage = SwitchStage::Finished(Err(SwitchError::Failed(failure)));
            },
            _ => {
                s.stage = SwitchStage::CaptureLive;
            },
        },
        SwitchStage::SavePrevious => match event {
            SwitchEvent::PreviousSaved => {
                s.stage = SwitchStage::ReadTarget;
            },
            SwitchEvent::Failed(failure) => {
                s.stage = SwitchStage::Finished(Err(SwitchError::Failed(failure)));
            },
            _ => {
                s.stage = SwitchStage::SavePrevious;
            },
        },
        SwitchStage::ReadTarget => match event {
            SwitchEvent::TargetRead(state) => {
                s.target = Some(state);
                s.stage = SwitchStage::ApplyTarget;
            },
            SwitchEvent::Failed(failure) => {
                s.stage = SwitchStage::Finished(Err(SwitchError::Failed(failure)));
            },
            _ => {
                s.stage = SwitchStage::ReadTarget;
            },
        },
        SwitchStage::ApplyTarget => match event {
            SwitchEvent::Applied { at } => {
                mark_switched(&mut s.registry, s.plugin_id.as_str(), s.alias.as_str(), at);
                s.stage = SwitchStage::SaveRegistry { at };
            },
            SwitchEvent::Failed(failure) => {
                s.stage = SwitchStage::RollBack { cause: failure };
            },
            _ => {
                s.stage = SwitchStage::ApplyTarget;
            },
        },
        SwitchStage::SaveRegistry { at } => match event {
            SwitchEvent::RegistrySaved => {
                s.stage = SwitchStage::Finished(
                    Ok(
                        SwitchReport {
                            plugin_id: s.plugin_id.clone(),
                            alias: s.alias.clone(),
                            previous_active: copy_opt(&s.previous_active),
                            switched_at: at,
                        },
                    ),
                );
            },
            SwitchEvent::Failed(failure) => {
                s.stage = SwitchStage::RollBack { cause: failure };
            },
            _ => {
                s.stage = SwitchStage::SaveRegistry { at };
            },
        },
        SwitchStage::RollBack { cause } => match event {
            SwitchEvent::RolledBack => {
                s.stage = SwitchStage::Finished(
                    Err(SwitchError::RollbackSucceeded { cause: Box::new(cause) }),
                );
            },
            SwitchEvent::Failed(failure) => {
                s.stage = SwitchStage::Finished(
                    Err(
                        SwitchError::RollbackFailed {
                            cause: Box::new(cause),
                            rollback: failure.message(),
                        },
                    ),
                );
            },
            _ => {
                s.stage = SwitchStage::RollBack { cause };
            },
        },
        SwitchStage::Finished(outcome) => {
            s.stage = SwitchStage::Finished(outcome);
        },
    }
    s
}

// ---------------------------------------------------------------------------------------------
// What a switch does to the world
// ---------------------------------------------------------------------------------------------
/// What a switch can touch: the live state, the saved states of the plugin's accounts, and the
/// registry as it is written.
pub struct World {
    pub live: StateView,
    pub saved: Map<Seq<char>, StateView>,
    pub registry: RegistryView,
}

/// Whether doing what the stage asks for can lead from one world to another and give an event. A
/// step that fails leaves all but what it was to write as it was; what it was to write is then open,
/// but for the registry and the saved states, which are replaced in one piece or not at all.
pub open spec fn performs(s: Switch, before: World, event: SwitchEvent, after: World) -> bool {
    match (s.stage, event) {
        (SwitchStage::CaptureLive, SwitchEvent::Captured(state)) => after == before
            && state.deep_view() == before.live,
        (SwitchStage::SavePrevious, SwitchEvent::PreviousSaved) => {
            &&& s.previous_active is Some
            &&& s.previous_live is Some
            &&& after == (World {
                saved: before.saved.insert(
                    s.previous_active->0@,
                    s.previous_live->0.deep_view(),
                ),
                ..before
            })
        },
        (SwitchStage::ReadTarget, SwitchEvent::TargetRead(state)) => after == before
            && before.saved.contains_key(s.alias@) && state.deep_view() == before.saved[s.alias@],
        (SwitchStage::ApplyTarget, SwitchEvent::Applied { .. }) => s.target is Some && after == (
        World { live: s.target->0.deep_view(), ..before }),
        (SwitchStage::ApplyTarget, SwitchEvent::Failed(_)) => after == (World {
            live: after.live,
            ..before
        }),
        (SwitchStage::SaveRegistry { .. }, SwitchEvent::RegistrySaved) => after == (World {
            registry: s.registry.deep_view(),
            ..before
        }),
        (SwitchStage::RollBack { .. }, SwitchEvent::RolledBack) => s.previous_live is Some && after
            == (World { live: s.previous_live->0.deep_view(), ..before }),
        (SwitchStage::RollBack { .. }, SwitchEvent::Failed(_)) => after == (World {
            live: after.live,
            ..before
        }),
        (SwitchStage::Finished(_), _) => after == before,
        (_, SwitchEvent::Failed(_)) => after == before,
        _ => false,
    }
}

/// The state that the chosen account is to be given: the one saved for it, or the live one where it
/// is active already.
pub open spec fn chosen_state(start: World, s: Switch) -> Option<StateView> {
    if s.previous_active is Some && s.previous_active->0@ == s.alias@ {
        Some(start.live)
    } else if start.saved.contains_key(s.alias@) {
        Some(start.saved[s.alias@])
    } else {
        None
    }
}

/// The saved states once the live state was saved for the account that was active.
pub open spec fn saved_after(start: World, s: Switch) -> Map<Seq<char>, StateView> {
    match s.previous_active {
        Some(alias) => start.saved.insert(alias@, start.live),
        None => start.saved,
    }
}

/// What holds of the world at each stage of a switch that began in the world `start`.
pub open spec fn on_track(start: World, s: Switch, now: World) -> bool {
    let began = s.previous_active.deep_view() == active_alias(start.registry, s.plugin_id@);
    let captured = s.previous_live is Some && s.previous_live->0.deep_view() == start.live;
    let ready = s.target is Some && chosen_state(start, s) == Some(s.target->0.deep_view());
    &&& began
    &&& match s.stage {
        SwitchStage::CaptureLive => now == start && s.registry.deep_view() == start.registry,
        SwitchStage::SavePrevious => now == start && captured && s.previous_active is Some
            && s.registry.deep_view() == start.registry,
        SwitchStage::ReadTarget => {
            &&& captured
            &&& now == (World { saved: saved_after(start, s), ..start })
            &&& s.registry.deep_view() == start.registry
        },
        SwitchStage::ApplyTarget => {
            &&& captured
            &&& ready
            &&& now == (World { saved: saved_after(start, s), ..start })
            &&& s.registry.deep_view() == start.registry
        },
        SwitchStage::SaveRegistry { at } => {
            &&& captured
            &&& ready
            &&& now == (World {
                live: s.target->0.deep_view(),
                saved: saved_after(start, s),
                registry: start.registry,
            })
            &&& s.registry.deep_view() == switched(start.registry, s.plugin_id@, s.alias@, at)
        },
        SwitchStage::RollBack { .. } => {
            &&& captured
            &&& now == (World {
                live: now.live,
                saved: saved_after(start, s),
                registry: start.registry,
            })
        },
        SwitchStage::Finished(Ok(report)) => {
            &&& ready
            &&& now == (World {
                live: chosen_state(start, s)->0,
                saved: saved_after(start, s),
                registry: switched(start.registry, s.plugin_id@, s.alias@, report.switched_at),
            })
        },
        SwitchStage::Finished(Err(SwitchError::Failed(_))) => {
            &&& now.live == start.live
            &&& now.registry == start.registry
            &&& now.saved == start.saved || now.saved == saved_after(start, s)
        },
        SwitchStage::Finished(Err(SwitchError::RollbackSucceeded { .. })) => {
            now == (World { saved: saved_after(start, s), ..start })
        },
        SwitchStage::Finished(Err(SwitchError::RollbackFailed { .. })) => {
            now == (World {
                live: now.live,
                saved: saved_after(start, s),
                registry: start.registry,
            })
        },
    }
}

/// A switch that begins is on track.
pub proof fn a_new_switch_is_on_track(start: World, s: Switch)
    requires
        s.registry.deep_view() == start.registry,
        s.previous_active.deep_view() == active_alias(start.registry, s.plugin_id@),
        s.previous_live is None,
        s.target is None,
        s.stage is CaptureLive,
    ensures
        on_track(start, s, start),
{
}

/// A switch on track stays so, whatever comes of each step. So the live state is that of the chosen
/// account and the registry says so where the switch succeeds; both are what they were where it
/// fails early or is rolled back; and the registry is what it was even where the rollback fails.
pub proof fn a_switch_stays_on_track(
    start: World,
    s: Switch,
    now: World,
    event: SwitchEvent,
    next: Switch,
    later: World,
)
    requires
        on_track(start, s, now),
        performs(s, now, event, later),
        steps_to(s, event, next),
    ensures
        on_track(start, next, later),
{
    match (s.stage, event) {
        (SwitchStage::CaptureLive, SwitchEvent::Captured(state)) => {
            if s.previous_active is None {
                assert(later == (World { saved: saved_after(start, next), ..start }));
            }
        },
        (SwitchStage::SavePrevious, SwitchEvent::PreviousSaved) => {
            assert(later.saved == saved_after(start, next));
        },
        _ => {},
    }
}

/// Switching keeps a registry consistent, and leaves the other plugins alone.
pub proof fn switching_keeps_the_registry_consistent(
    r: RegistryView,
    plugin: Seq<char>,
    alias: Seq<char>,
    at: Timestamp,
)
    requires
        consistent(r),
        has_account(r, plugin, alias),
    ensures
        consistent(switched(r, plugin, alias, at)),
        active_alias(switched(r, plugin, alias, at), plugin) == Some(alias),
        forall|other: Seq<char>|
            other != plugin ==> #[trigger] active_alias(switched(r, plugin, alias, at), other)
                == active_alias(r, other),
        forall|p: Seq<char>, a: Seq<char>|
            #[trigger] has_account(switched(r, plugin, alias, at), p, a) == has_account(r, p, a),
        forall|p: Seq<char>, a: Seq<char>|
            (p != plugin || a != alias) ==> #[trigger] account_of(
                switched(r, plugin, alias, at),
                p,
                a,
            ) == account_of(r, p, a),
{
    let next = switched(r, plugin, alias, at);
    assert forall|p: Seq<char>, a: Seq<char>| #[trigger] has_account(next, p, a) == has_account(
        r,
        p,
        a,
    ) by {}
    assert forall|p: Seq<char>, a: Seq<char>|
        #![trigger next.accounts[p][a]]
        has_account(next, p, a) implies next.accounts[p][a].alias == a by {
        assert(has_account(r, p, a));
        assert(r.accounts[p][a].alias == a);
    }
    assert forall|p: Seq<char>| (#[trigger] active_alias(next, p)) is Some implies has_account(
        next,
        p,
        active_alias(next, p)->0,
    ) by {
        if p != plugin {
            assert(active_alias(r, p) == active_alias(next, p));
            assert(has_account(r, p, active_alias(r, p)->0));
        }
    }
}

/// Switching back gives each account its state again: after a switch from one account to another
/// and back, the live state and the states saved are those that the first switch left behind.
pub proof fn switching_back_restores_the_live_state(
    start: World,
    there: Switch,
    middle: World,
    back: Switch,
    end: World,
)
    requires
        on_track(start, there, middle),
        there.stage matches SwitchStage::Finished(Ok(_)),
        there.previous_active is Some,
        there.previous_active->0@ != there.alias@,
        on_track(middle, back, end),
        back.stage matches SwitchStage::Finished(Ok(_)),
        back.plugin_id@ == there.plugin_id@,
        back.alias@ == there.previous_active->0@,
    ensures
        end.live == start.live,
        end.saved == middle.saved,
        active_alias(end.registry, there.plugin_id@) == active_alias(
            start.registry,
            there.plugin_id@,
        ),
{
    assert(active_alias(middle.registry, there.plugin_id@) == Some(there.alias@));
    assert(back.previous_active->0@ == there.alias@);
    assert(end.saved =~= middle.saved);
}

} // verus!
