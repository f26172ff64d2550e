//! Using an account in one shell alone: a home directory of its own, with the account's credential
//! in it, that an environment variable points the tool to.
use vstd::prelude::*;

use crate::path::{
    backup_path_of, backup_relative_path, expand_user_path_from, join_path, joined, parent,
    parent_of, relative_to, strip_base, user_path,
};
use crate::paths::{AswitchPaths, PathsError};
use crate::plugin::catalog::ManifestLoadError;
use crate::plugin::{AuxFile, AuxFileKind, CredentialStoreKind, Manifest, SessionActivationConfig};
use crate::switch::{
    PathState, SnapshotRead, account_dir, account_dir_of, aux_backup_path, primary_credentials_path,
};
use crate::text::{copy_all, join2, join3, same};

verus! {

/// What was made ready for a shell.
pub struct SessionActivationReport {
    pub plugin_id: String,
    pub alias: String,
    pub env_var: String,
    pub default_home: String,
    pub runtime_home: String,
    pub runtime_credential_path: String,
}

/// Why an account cannot be used in one shell alone.
pub enum SessionError {
    Paths(PathsError),
    Manifest(ManifestLoadError),
    ActivationNotSupported { plugin_id: String },
    UnsupportedCredentialStore { plugin_id: String },
    AccountBackupMissing { plugin_id: String, alias: String, path: String },
    CredentialPathOutsideDefaultHome {
        plugin_id: String,
        credential_path: String,
        default_home: String,
    },
    AuxPathOutsideDefaultHome { plugin_id: String, aux_path: String, default_home: String },
    ReadFile { path: String },
    CreateDirectory { path: String },
    RemovePath { path: String },
    WriteFile { path: String },
    RenamePath { from: String, to: String },
    SymlinkPath { from: String, to: String },
}

impl SessionError {
    pub open spec fn text(&self) -> Seq<char> {
        match *self {
            SessionError::Paths(_) => "failed to resolve aswitch paths"@,
            SessionError::Manifest(_) => "failed to load plugin manifest"@,
            SessionError::ActivationNotSupported { plugin_id } => "plugin "@ + plugin_id@
                + " does not support terminal-scoped activation"@,
            SessionError::UnsupportedCredentialStore { plugin_id } => "plugin "@ + plugin_id@
                + " only supports terminal activation with file credentials"@,
            SessionError::AccountBackupMissing { plugin_id, alias, path } => "account backup for "@
                + plugin_id@ + "/"@ + alias@ + " is missing at "@ + path@,
            SessionError::CredentialPathOutsideDefaultHome {
                plugin_id,
                credential_path,
                default_home,
            } => "plugin "@ + plugin_id@ + " credential path "@ + credential_path@
                + " must stay under session_activation.default_home "@ + default_home@,
            SessionError::AuxPathOutsideDefaultHome { plugin_id, aux_path, default_home } =>
                "plugin "@ + plugin_id@ + " aux path "@ + aux_path@
                + " must stay under session_activation.default_home "@ + default_home@,
            SessionError::ReadFile { path } => "failed to read file "@ + path@,
            SessionError::CreateDirectory { path } => "failed to create directory "@ + path@,
            SessionError::RemovePath { path } => "failed to remove path "@ + path@,
            SessionError::WriteFile { path } => "failed to write file "@ + path@,
            SessionError::RenamePath { from, to } => "failed to rename path from "@ + from@
                + " to "@ + to@,
            SessionError::SymlinkPath { from, to } => "failed to symlink path from "@ + from@
                + " to "@ + to@,
        }
    }

    /// The error in words.
    pub fn message(&self) -> (r: String)
        ensures
            r@ == self.text(),
    {
        match self {
            SessionError::Paths(_) => "failed to resolve aswitch paths".to_owned(),
            SessionError::Manifest(_) => "failed to load plugin manifest".to_owned(),
            SessionError::ActivationNotSupported { plugin_id } => join3(
                "plugin ",
                plugin_id.as_str(),
                " does not support terminal-scoped activation",
            ),
            SessionError::UnsupportedCredentialStore { plugin_id } => join3(
                "plugin ",
                plugin_id.as_str(),
                " only supports terminal activation with file credentials",
            ),
            SessionError::AccountBackupMissing { plugin_id, alias, path } => {
                let mut out = join3("account backup for ", plugin_id.as_str(), "/");
                out.append(alias.as_str());
                out.append(" is missing at ");
                out.append(path.as_str());
                out
            },
            SessionError::CredentialPathOutsideDefaultHome {
                plugin_id,
                credential_path,
                default_home,
            } => {
                let mut out = join3("plugin ", plugin_id.as_str(), " credential path ");
                out.append(credential_path.as_str());
                out.append(" must stay under session_activation.default_home ");
                out.append(default_home.as_str());
                out
            },
            SessionError::AuxPathOutsideDefaultHome { plugin_id, aux_path, default_home } => {
                let mut out = join3("plugin ", plugin_id.as_str(), " aux path ");
                out.append(aux_path.as_str());
                out.append(" must stay under session_activation.default_home ");
                out.append(default_home.as_str());
                out
            },
            SessionError::ReadFile { path } => join2("failed to read file ", path.as_str()),
            SessionError::CreateDirectory { path } => join2(
                "failed to create directory ",
                path.as_str(),
            ),
            SessionError::RemovePath { path } => join2("failed to remove path ", path.as_str()),
            SessionError::WriteFile { path } => join2("failed to write file ", path.as_str()),
            SessionError::RenamePath { from, to } => {
                let mut out = join3("failed to rename path from ", from.as_str(), " to ");
                out.append(to.as_str());
                out
            },
            SessionError::SymlinkPath { from, to } => {
                let mut out = join3("failed to symlink path from ", from.as_str(), " to ");
                out.append(to.as_str());
                out
            },
        }
    }
}

// ---------------------------------------------------------------------------------------------
// The configuration
// ---------------------------------------------------------------------------------------------
pub struct ActivationView {
    pub env_var: Seq<char>,
    pub default_home: Seq<char>,
    pub shared_paths: Seq<Seq<char>>,
}

impl DeepView for SessionActivationConfig {
    type V = ActivationView;

    open spec fn deep_view(&self) -> ActivationView {
        ActivationView {
            env_var: self.env_var@,
            default_home: self.default_home@,
            shared_paths: self.shared_paths.deep_view(),
        }
    }
}

/// What holds for the plugin `codex` where its manifest says nothing.
pub open spec fn codex_activation() -> ActivationView {
    ActivationView {
        env_var: "CODEX_HOME"@,
        default_home: "~/.codex"@,
        shared_paths: seq![
            "config.toml"@,
            "skills"@,
            "rules"@,
            "memories"@,
            "vendor_imports"@,
            "installation_id"@,
            "version.json"@,
        ],
    }
}

/// How a plugin is used in one shell alone, if it can be.
pub open spec fn activation_of(m: Manifest) -> Option<ActivationView> {
    match m.session_activation {
        Some(config) => Some(config.deep_view()),
        None => if m.id@ == "codex"@ {
            Some(codex_activation())
        } else {
            None
        },
    }
}

/// How a plugin is used in one shell alone, if it can be.
pub fn activation_config(manifest: &Manifest) -> (r: Option<SessionActivationConfig>)
    ensures
        r.deep_view() == activation_of(*manifest),
{
    match &manifest.session_activation {
        Some(config) => Some(
            SessionActivationConfig {
                env_var: config.env_var.clone(),
                default_home: config.default_home.clone(),
                shared_paths: copy_all(&config.shared_paths),
            },
        ),
        None => legacy_activation_config(manifest.id.as_str()),
    }
}

fn legacy_activation_config(plugin_id: &str) -> (r: Option<SessionActivationConfig>)
    ensures
        r.deep_view() == (if plugin_id@ == "codex"@ {
            Some(codex_activation())
        } else {
            None
        }),
{
    if !same(plugin_id, "codex") {
        return None;
    }
    let mut shared_paths: Vec<String> = Vec::new();
    shared_paths.push("config.toml".to_owned());
    shared_paths.push("skills".to_owned());
    shared_paths.push("rules".to_owned());
    shared_paths.push("memories".to_owned());
    shared_paths.push("vendor_imports".to_owned());
    shared_paths.push("installation_id".to_owned());
    shared_paths.push("version.json".to_owned());
    assert(shared_paths.deep_view() == codex_activation().shared_paths);
    Some(
        SessionActivationConfig {
            env_var: "CODEX_HOME".to_owned(),
            default_home: "~/.codex".to_owned(),
            shared_paths,
        },
    )
}

/// The variable that points the tool of a plugin to the home directory of a shell.
pub fn session_env_var(plugin_id: &str, manifest: &Manifest) -> (r: Result<String, SessionError>)
    ensures
        match r {
            Ok(name) => activation_of(*manifest) is Some && name@ == activation_of(
                *manifest,
            )->0.env_var,
            Err(SessionError::ActivationNotSupported { plugin_id: id }) => activation_of(
                *manifest,
            ) is None && id@ == plugin_id@,
            Err(_) => false,
        },
{
    match activation_config(manifest) {
        Some(config) => Ok(config.env_var),
        None => Err(SessionError::ActivationNotSupported { plugin_id: plugin_id.to_owned() }),
    }
}

// ---------------------------------------------------------------------------------------------
// The plan
// ---------------------------------------------------------------------------------------------
/// A file or directory that the shell shares with the rest of the machine, by a link.
pub struct SharedLink {
    pub source: String,
    pub destination: String,
    pub parent: Option<String>,
}

pub struct LinkView {
    pub source: Seq<char>,
    pub destination: Seq<char>,
    pub parent: Option<Seq<char>>,
}

impl DeepView for SharedLink {
    type V = LinkView;

    open spec fn deep_view(&self) -> LinkView {
        LinkView {
            source: self.source@,
            destination: self.destination@,
            parent: self.parent.deep_view(),
        }
    }
}

pub open spec fn link_of(relative: Seq<char>, default_home: Seq<char>, runtime_home: Seq<char>) -> LinkView {
    LinkView {
        source: joined(default_home, relative),
        destination: joined(runtime_home, relative),
        parent: parent_of(joined(runtime_home, relative)),
    }
}

/// A file or directory of the account that the shell gets a copy of, or why it cannot.
pub enum AuxStep {
    Copy { backup_path: String, destination: String, kind: AuxFileKind, required: bool },
    Outside { aux_path: String },
}

pub enum AuxStepView {
    Copy { backup_path: Seq<char>, destination: Seq<char>, kind: AuxFileKind, required: bool },
    Outside { aux_path: Seq<char> },
}

impl DeepView for AuxStep {
    type V = AuxStepView;

    open spec fn deep_view(&self) -> AuxStepView {
        match *self {
            AuxStep::Copy { backup_path, destination, kind, required } => AuxStepView::Copy {
                backup_path: backup_path@,
                destination: destination@,
                kind,
                required,
            },
            AuxStep::Outside { aux_path } => AuxStepView::Outside { aux_path: aux_path@ },
        }
    }
}

/// What is done with a file that goes with the credential. One outside the tool's home directory
/// ends the preparation when its turn comes.
pub open spec fn aux_step_of(
    file: AuxFile,
    home: Seq<char>,
    default_home: Seq<char>,
    runtime_home: Seq<char>,
    account_dir: Seq<char>,
) -> AuxStepView {
    let aux_path = user_path(file.path@, home);
    match relative_to(aux_path, default_home) {
        Some(relative) => AuxStepView::Copy {
            backup_path: joined(joined(account_dir, "aux"@), backup_path_of(aux_path, home)),
            destination: joined(runtime_home, relative),
            kind: file.kind,
            required: file.required,
        },
        None => AuxStepView::Outside { aux_path },
    }
}

/// All that has to be done for a shell, in order: the credential is read from its backup, the home
/// directory is made, the shared paths that exist are linked, the credential is written, and the
/// other files are copied.
pub struct SessionPlan {
    pub report: SessionActivationReport,
    pub backup_path: String,
    pub links: Vec<SharedLink>,
    pub aux: Vec<AuxStep>,
}

fn link_all(shared_paths: &Vec<String>, default_home: &str, runtime_home: &str) -> (r: Vec<
    SharedLink,
>)
    ensures
        r.deep_view() == shared_paths.deep_view().map_values(
            |p: Seq<char>| link_of(p, default_home@, runtime_home@),
        ),
{
    let ghost all = shared_paths.deep_view().map_values(
        |p: Seq<char>| link_of(p, default_home@, runtime_home@),
    );
    let mut out: Vec<SharedLink> = Vec::new();
    let mut i: usize = 0;
    while i < shared_paths.len()
        invariant
            i <= shared_paths.len(),
            all == shared_paths.deep_view().map_values(
                |p: Seq<char>| link_of(p, default_home@, runtime_home@),
            ),
            out.deep_view() == all.take(i as int),
        decreases shared_paths.len() - i,
    {
        let ghost before = out.deep_view();
        let destination = join_path(runtime_home, shared_paths[i].as_str());
        out.push(
            SharedLink {
                source: join_path(default_home, shared_paths[i].as_str()),
                parent: parent(destination.as_str()),
                destination,
            },
        );
        i = i + 1;
        assert(out.deep_view() == before.push(all[i - 1]));
        assert(all.take(i as int) == all.take(i - 1).push(all[i - 1]));
    }
    assert(all.take(i as int) == all);
    out
}

fn aux_steps(
    files: &Vec<AuxFile>,
    home_dir: &str,
    default_home: &str,
    runtime_home: &str,
    account_dir: &str,
) -> (r: Vec<AuxStep>)
    ensures
        r.deep_view() == files@.map_values(
            |f: AuxFile| aux_step_of(f, home_dir@, default_home@, runtime_home@, account_dir@),
        ),
{
    let ghost all = files@.map_values(
        |f: AuxFile| aux_step_of(f, home_dir@, default_home@, runtime_home@, account_dir@),
    );
    let mut out: Vec<AuxStep> = Vec::new();
    let mut i: usize = 0;
    while i < files.len()
        invariant
            i <= files.len(),
            all == files@.map_values(
                |f: AuxFile| aux_step_of(f, home_dir@, default_home@, runtime_home@, account_dir@),
            ),
            out.deep_view() == all.take(i as int),
        decreases files.len() - i,
    {
        let ghost before = out.deep_view();
        let aux_path = expand_user_path_from(files[i].path.as_str(), home_dir);
        match strip_base(aux_path.as_str(), default_home) {
            Some(relative) => {
                let backup = backup_relative_path(aux_path.as_str(), home_dir);
                out.push(
                    AuxStep::Copy {
                        backup_path: aux_backup_path(account_dir, backup.as_str()),
                        destination: join_path(runtime_home, relative.as_str()),
                        kind: files[i].kind,
                        required: files[i].required,
                    },
                );
            },
            None => {
                out.push(AuxStep::Outside { aux_path });
            },
        }
        i = i + 1;
        assert(out.deep_view() == before.push(all[i - 1]));
        assert(all.take(i as int) == all.take(i - 1).push(all[i - 1]));
    }
    assert(all.take(i as int) == all);
    out
}

/// The home directory of a shell for an account.
pub open spec fn runtime_home_of(root: Seq<char>, plugin: Seq<char>, alias: Seq<char>) -> Seq<char> {
    joined(joined(joined(root, "runtime"@), plugin), alias)
}

/// What has to be done to use `alias` in one shell alone. `manifest` is the plugin's manifest with
/// the variable of `activation` empty, so that its paths are those outside of any such shell.
pub fn prepare_session_activation(
    paths: &AswitchPaths,
    home_dir: &str,
    plugin_id: &str,
    alias: &str,
    activation: &SessionActivationConfig,
    manifest: &Manifest,
) -> (r: Result<SessionPlan, SessionError>)
    ensures
        ({
            let default_home = user_path(activation.default_home@, home_dir@);
            let account = account_dir_of(paths.accounts_dir@, plugin_id@, alias@);
            let runtime_home = runtime_home_of(paths.root@, plugin_id@, alias@);
            let store = manifest.credential_store;
            match r {
                Ok(plan) => {
                    &&& store.kind == CredentialStoreKind::File
                    &&& store.path is Some
                    &&& relative_to(user_path(store.path->0@, home_dir@), default_home) is Some
                    &&& plan.report.plugin_id@ == plugin_id@
                    &&& plan.report.alias@ == alias@
                    &&& plan.report.env_var@ == activation.env_var@
                    &&& plan.report.default_home@ == default_home
                    &&& plan.report.runtime_home@ == runtime_home
                    &&& plan.report.runtime_credential_path@ == joined(
                        runtime_home,
                        relative_to(user_path(store.path->0@, home_dir@), default_home)->0,
                    )
                    &&& plan.backup_path@ == joined(account, "primary.creds"@)
                    &&& plan.links.deep_view() == activation.shared_paths.deep_view().map_values(
                        |p: Seq<char>| link_of(p, default_home, runtime_home),
                    )
                    &&& plan.aux.deep_view() == manifest.aux_files@.map_values(
                        |f: AuxFile| aux_step_of(f, home_dir@, default_home, runtime_home, account),
                    )
                },
                Err(SessionError::UnsupportedCredentialStore { plugin_id: id }) => if store.kind
                    != CredentialStoreKind::File {
                    id@ == plugin_id@
                } else {
                    store.path is None && id@ == manifest.id@
                },
                Err(
                    SessionError::CredentialPathOutsideDefaultHome {
                        plugin_id: id,
                        credential_path,
                        default_home: home,
                    },
                ) => {
                    &&& store.kind == CredentialStoreKind::File
                    &&& store.path is Some
                    &&& id@ == plugin_id@
                    &&& credential_path@ == user_path(store.path->0@, home_dir@)
                    &&& home@ == default_home
                    &&& relative_to(credential_path@, default_home) is None
                },
                Err(_) => false,
            }
        }),
{
    if manifest.credential_store.kind != CredentialStoreKind::File {
        return Err(SessionError::UnsupportedCredentialStore { plugin_id: plugin_id.to_owned() });
    }
    let default_home = expand_user_path_from(activation.default_home.as_str(), home_dir);
    let credential_path = match &manifest.credential_store.path {
        Some(path) => expand_user_path_from(path.as_str(), home_dir),
        None => {
            return Err(
                SessionError::UnsupportedCredentialStore { plugin_id: manifest.id.clone() },
            );
        },
    };
    let relative = match strip_base(credential_path.as_str(), default_home.as_str()) {
        Some(relative) => relative,
        None => {
            return Err(
                SessionError::CredentialPathOutsideDefaultHome {
                    plugin_id: plugin_id.to_owned(),
                    credential_path,
                    default_home,
                },
            );
        },
    };
    let account = account_dir(paths, plugin_id, alias);
    let runtime = join_path(paths.root.as_str(), "runtime");
    let runtime_home = join_path(join_path(runtime.as_str(), plugin_id).as_str(), alias);
    let links = link_all(&activation.shared_paths, default_home.as_str(), runtime_home.as_str());
    let aux = aux_steps(
        &manifest.aux_files,
        home_dir,
        default_home.as_str(),
        runtime_home.as_str(),
        account.as_str(),
    );
    Ok(
        SessionPlan {
            backup_path: primary_credentials_path(account.as_str()),
            links,
            aux,
            report: SessionActivationReport {
                plugin_id: plugin_id.to_owned(),
                alias: alias.to_owned(),
                env_var: activation.env_var.clone(),
                default_home,
                runtime_credential_path: join_path(runtime_home.as_str(), relative.as_str()),
                runtime_home,
            },
        },
    )
}

/// Why a backup that has to be a file could not be read.
pub fn backup_failure(plugin_id: &str, alias: &str, path: &str, not_found: bool) -> (r: SessionError)
    ensures
        match r {
            SessionError::AccountBackupMissing { plugin_id: id, alias: a, path: p } => not_found
                && id@ == plugin_id@ && a@ == alias@ && p@ == path@,
            SessionError::ReadFile { path: p } => !not_found && p@ == path@,
            _ => false,
        },
{
    if not_found {
        SessionError::AccountBackupMissing {
            plugin_id: plugin_id.to_owned(),
            alias: alias.to_owned(),
            path: path.to_owned(),
        }
    } else {
        SessionError::ReadFile { path: path.to_owned() }
    }
}

/// How a backup is read that should be of a certain kind and may be required.
pub fn read_backup_content(
    plugin_id: &str,
    alias: &str,
    path: &str,
    kind: AuxFileKind,
    required: bool,
    found: PathState,
) -> (r: Result<SnapshotRead, SessionError>)
    ensures
        match r {
            Ok(SnapshotRead::File) => kind == AuxFileKind::File && found == PathState::File,
            Ok(SnapshotRead::Directory) => kind == AuxFileKind::Dir && found
                == PathState::Directory,
            Ok(SnapshotRead::Nothing) => found == PathState::Missing && !required,
            Err(SessionError::AccountBackupMissing { plugin_id: id, alias: a, path: p }) => id@
                == plugin_id@ && a@ == alias@ && p@ == path@ && found == PathState::Missing
                && required,
            Err(SessionError::ReadFile { path: p }) => p@ == path@ && found != PathState::Missing
                && (if kind == AuxFileKind::File {
                found != PathState::File
            } else {
                found != PathState::Directory
            }),
            Err(_) => false,
        },
{
    if found == PathState::Missing {
        if required {
            return Err(backup_failure(plugin_id, alias, path, true));
        }
        return Ok(SnapshotRead::Nothing);
    }
    match kind {
        AuxFileKind::File => if found == PathState::File {
            Ok(SnapshotRead::File)
        } else {
            Err(backup_failure(plugin_id, alias, path, false))
        },
        AuxFileKind::Dir => if found == PathState::Directory {
            Ok(SnapshotRead::Directory)
        } else {
            Err(backup_failure(plugin_id, alias, path, false))
        },
    }
}

} // verus!
