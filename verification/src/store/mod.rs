//! Where the credential of the active account lies, and why reaching it can fail.
use vstd::prelude::*;

use crate::path::{expand_user_path_from, user_path};
use crate::paths::PathsError;
use crate::plugin::{CredentialStore as ManifestCredentialStore, CredentialStoreKind, Platform, platform_named};
use crate::text::{join2, join3};
use crate::text_map::Duplicate;

use self::file::FileStore;
use self::keychain::{BackendView, KeychainStore};

pub mod file;
pub mod keychain;

verus! {

/// The store that holds the credential of the active account.
pub enum ResolvedCredentialStore {
    File(FileStore),
    Keychain(KeychainStore),
}

pub enum StoreView {
    File { path: Seq<char>, permissions: u32 },
    Keychain { backend: BackendView, allow_empty_active: bool },
}

impl DeepView for ResolvedCredentialStore {
    type V = StoreView;

    open spec fn deep_view(&self) -> StoreView {
        match *self {
            ResolvedCredentialStore::File(store) => StoreView::File {
                path: store.location(),
                permissions: store.mode(),
            },
            ResolvedCredentialStore::Keychain(store) => StoreView::Keychain {
                backend: store.kept_in(),
                allow_empty_active: store.may_be_empty(),
            },
        }
    }
}

/// Why no store can be found.
pub enum StoreResolveError {
    Paths(PathsError),
    MissingField(String),
    UnsupportedPlatform,
}

impl StoreResolveError {
    pub open spec fn text(&self) -> Seq<char> {
        match *self {
            StoreResolveError::Paths(_) => "failed to resolve user paths"@,
            StoreResolveError::MissingField(field) => "missing required manifest field: "@ + field@,
            StoreResolveError::UnsupportedPlatform => "unsupported current platform"@,
        }
    }

    /// The error in words.
    pub fn message(&self) -> (r: String)
        ensures
            r@ == self.text(),
    {
        match self {
            StoreResolveError::Paths(_) => "failed to resolve user paths".to_owned(),
            StoreResolveError::MissingField(field) => join2(
                "missing required manifest field: ",
                field.as_str(),
            ),
            StoreResolveError::UnsupportedPlatform => "unsupported current platform".to_owned(),
        }
    }
}

/// Why a credential could not be read, written or removed.
pub enum StoreError {
    NotFound { path: String },
    KeychainItemNotFound { service: String, account: String },
    SecretServiceItemNotFound { attributes: String },
    Read { path: String },
    CreateDirectory { path: String },
    Write { path: String },
    Remove { path: String },
    Rename { from: String, to: String },
    InvalidKeychainEncoding,
    CommandSpawn { program: String },
    CommandFailure {
        program: String,
        action: String,
        service: String,
        account: String,
        status: String,
        stderr: String,
    },
    SecretServiceFailure { action: String, locator: String, message: String },
    UnsupportedKeychainBackend,
}

impl StoreError {
    pub open spec fn text(&self) -> Seq<char> {
        match *self {
            StoreError::NotFound { path } => "credential file "@ + path@ + " does not exist"@,
            StoreError::KeychainItemNotFound { service, account } =>
                "keychain item not found for service "@ + service@ + " account "@ + account@,
            StoreError::SecretServiceItemNotFound { attributes } =>
                "secret-service item not found for attributes "@ + attributes@,
            StoreError::Read { path } => "failed to read credential file "@ + path@,
            StoreError::CreateDirectory { path } => "failed to create parent directory "@ + path@,
            StoreError::Write { path } => "failed to write credential file "@ + path@,
            StoreError::Remove { path } => "failed to remove credential file "@ + path@,
            StoreError::Rename { from, to } => "failed to rename credential temp file from "@
                + from@ + " to "@ + to@,
            StoreError::InvalidKeychainEncoding => "keychain credentials must be valid UTF-8"@,
            StoreError::CommandSpawn { program } => "failed to run command "@ + program@,
            StoreError::CommandFailure { program, action, service, account, status, stderr } =>
                "command "@ + program@ + " failed during "@ + action@ + " for keychain item "@
                + service@ + "/"@ + account@ + " with status "@ + status@ + ": "@ + stderr@,
            StoreError::SecretServiceFailure { action, locator, message } =>
                "secret-service operation "@ + action@ + " failed for "@ + locator@ + ": "@
                + message@,
            StoreError::UnsupportedKeychainBackend =>
                "keychain backend is not available on this platform"@,
        }
    }

    /// The error in words.
    pub fn message(&self) -> (r: String)
        ensures
            r@ == self.text(),
    {
        match self {
            StoreError::NotFound { path } => join3(
                "credential file ",
                path.as_str(),
                " does not exist",
            ),
            StoreError::KeychainItemNotFound { service, account } => {
                let mut out = join3(
                    "keychain item not found for service ",
                    service.as_str(),
                    " account ",
                );
                out.append(account.as_str());
                out
            },
            StoreError::SecretServiceItemNotFound { attributes } => join2(
                "secret-service item not found for attributes ",
                attributes.as_str(),
            ),
            StoreError::Read { path } => join2("failed to read credential file ", path.as_str()),
            StoreError::CreateDirectory { path } => join2(
                "failed to create parent directory ",
                path.as_str(),
            ),
            StoreError::Write { path } => join2("failed to write credential file ", path.as_str()),
            StoreError::Remove { path } => join2(
                "failed to remove credential file ",
                path.as_str(),
            ),
            StoreError::Rename { from, to } => {
                let mut out = join3(
                    "failed to rename credential temp file from ",
                    from.as_str(),
                    " to ",
                );
                out.append(to.as_str());
                out
            },
            StoreError::InvalidKeychainEncoding =>
                "keychain credentials must be valid UTF-8".to_owned(),
            StoreError::CommandSpawn { program } => join2(
                "failed to run command ",
                program.as_str(),
            ),
            StoreError::CommandFailure { program, action, service, account, status, stderr } => {
                let mut out = join3("command ", program.as_str(), " failed during ");
                out.append(action.as_str());
                out.append(" for keychain item ");
                out.append(service.as_str());
                out.append("/");
                out.append(account.as_str());
                out.append(" with status ");
                out.append(status.as_str());
                out.append(": ");
                out.append(stderr.as_str());
                out
            },
            StoreError::SecretServiceFailure { action, locator, message } => {
                let mut out = join3("secret-service operation ", action.as_str(), " failed for ");
                out.append(locator.as_str());
                out.append(": ");
                out.append(message.as_str());
                out
            },
            StoreError::UnsupportedKeychainBackend =>
                "keychain backend is not available on this platform".to_owned(),
        }
    }
}

// ---------------------------------------------------------------------------------------------
// Finding the store
// ---------------------------------------------------------------------------------------------
/// What stands against a store.
pub enum ResolveProblem {
    NoHome,
    MissingField(Seq<char>),
    UnsupportedPlatform,
}

pub open spec fn resolve_problem(e: StoreResolveError) -> ResolveProblem {
    match e {
        StoreResolveError::Paths(_) => ResolveProblem::NoHome,
        StoreResolveError::MissingField(field) => ResolveProblem::MissingField(field@),
        StoreResolveError::UnsupportedPlatform => ResolveProblem::UnsupportedPlatform,
    }
}

pub open spec fn outcome(r: Result<ResolvedCredentialStore, StoreResolveError>) -> Result<
    StoreView,
    ResolveProblem,
> {
    match r {
        Ok(store) => Ok(store.deep_view()),
        Err(e) => Err(resolve_problem(e)),
    }
}

pub open spec fn missing(field: Seq<char>) -> Result<StoreView, ResolveProblem> {
    Err(ResolveProblem::MissingField(field))
}

pub open spec fn file_store(
    path: Option<String>,
    path_field: Seq<char>,
    permissions: Option<u32>,
    permissions_field: Seq<char>,
    home: Seq<char>,
) -> Result<StoreView, ResolveProblem> {
    match (path, permissions) {
        (None, _) => missing(path_field),
        (Some(_), None) => missing(permissions_field),
        (Some(p), Some(mode)) => Ok(
            StoreView::File { path: user_path(p@, home), permissions: mode },
        ),
    }
}

/// The store of a manifest on a platform. On Linux a keychain store may fall back to a file.
pub open spec fn store_on(
    s: ManifestCredentialStore,
    platform: Platform,
    home: Seq<char>,
) -> Result<StoreView, ResolveProblem> {
    match s.kind {
        CredentialStoreKind::File => file_store(
            s.path,
            "credential_store.path"@,
            s.permissions,
            "credential_store.permissions"@,
            home,
        ),
        CredentialStoreKind::Keychain => if platform == Platform::Linux && s.linux_fallback_kind
            == Some(CredentialStoreKind::File) {
            file_store(
                s.linux_fallback_path,
                "credential_store.linux_fallback_path"@,
                s.linux_fallback_permissions,
                "credential_store.linux_fallback_permissions"@,
                home,
            )
        } else {
            match platform {
                Platform::Macos => match (s.macos_service, s.macos_account) {
                    (None, _) => missing("credential_store.macos_service"@),
                    (Some(_), None) => missing("credential_store.macos_account"@),
                    (Some(service), Some(account)) => Ok(
                        StoreView::Keychain {
                            backend: BackendView::Macos { service: service@, account: account@ },
                            allow_empty_active: s.allow_empty_active,
                        },
                    ),
                },
                Platform::Linux => match s.linux_schema {
                    None => missing("credential_store.linux_schema"@),
                    Some(schema) => if crate::plugin::no_entries(s.linux_attributes) {
                        missing("credential_store.linux_attributes"@)
                    } else {
                        Ok(
                            StoreView::Keychain {
                                backend: BackendView::Linux {
                                    schema: schema@,
                                    attributes: s.linux_attributes.deep_view(),
                                },
                                allow_empty_active: s.allow_empty_active,
                            },
                        )
                    },
                },
                Platform::Windows => Err(ResolveProblem::UnsupportedPlatform),
            }
        },
    }
}

fn missing_field(field: &str) -> (r: Result<ResolvedCredentialStore, StoreResolveError>)
    ensures
        outcome(r) == missing(field@),
{
    Err(StoreResolveError::MissingField(field.to_owned()))
}

fn resolve_file(
    path: &Option<String>,
    path_field: &str,
    permissions: Option<u32>,
    permissions_field: &str,
    home_dir: &str,
) -> (r: Result<ResolvedCredentialStore, StoreResolveError>)
    ensures
        outcome(r) == file_store(*path, path_field@, permissions, permissions_field@, home_dir@),
{
    match path {
        None => missing_field(path_field),
        Some(p) => match permissions {
            None => missing_field(permissions_field),
            Some(mode) => Ok(
                ResolvedCredentialStore::File(
                    FileStore::new(expand_user_path_from(p.as_str(), home_dir), mode),
                ),
            ),
        },
    }
}

/// The store of a manifest on a platform.
pub fn resolve_active_store_for_platform(
    manifest_store: &ManifestCredentialStore,
    platform: Platform,
    home_dir: &str,
) -> (r: Result<ResolvedCredentialStore, StoreResolveError>)
    ensures
        outcome(r) == store_on(*manifest_store, platform, home_dir@),
{
    match manifest_store.kind {
        CredentialStoreKind::File => resolve_file(
            &manifest_store.path,
            "credential_store.path",
            manifest_store.permissions,
            "credential_store.permissions",
            home_dir,
        ),
        CredentialStoreKind::Keychain => {
            let falls_back = match manifest_store.linux_fallback_kind {
                Some(kind) => kind == CredentialStoreKind::File,
                None => false,
            };
            if platform == Platform::Linux && falls_back {
                return resolve_file(
                    &manifest_store.linux_fallback_path,
                    "credential_store.linux_fallback_path",
                    manifest_store.linux_fallback_permissions,
                    "credential_store.linux_fallback_permissions",
                    home_dir,
                );
            }
            match platform {
                Platform::Macos => match &manifest_store.macos_service {
                    None => missing_field("credential_store.macos_service"),
                    Some(service) => match &manifest_store.macos_account {
                        None => missing_field("credential_store.macos_account"),
                        Some(account) => Ok(
                            ResolvedCredentialStore::Keychain(
                                KeychainStore::macos(
                                    service.clone(),
                                    account.clone(),
                                    manifest_store.allow_empty_active,
                                ),
                            ),
                        ),
                    },
                },
                Platform::Linux => match &manifest_store.linux_schema {
                    None => missing_field("credential_store.linux_schema"),
                    Some(schema) => if manifest_store.linux_attributes.is_empty() {
                        missing_field("credential_store.linux_attributes")
                    } else {
                        Ok(
                            ResolvedCredentialStore::Keychain(
                                KeychainStore::linux(
                                    schema.clone(),
                                    manifest_store.linux_attributes.duplicate(),
                                    manifest_store.allow_empty_active,
                                ),
                            ),
                        )
                    },
                },
                Platform::Windows => Err(StoreResolveError::UnsupportedPlatform),
            }
        },
    }
}

/// The store of a manifest on the operating system that is named `os`.
pub open spec fn store_for(
    s: ManifestCredentialStore,
    os: Seq<char>,
    home: Option<Seq<char>>,
) -> Result<StoreView, ResolveProblem> {
    match home {
        None => Err(ResolveProblem::NoHome),
        Some(home) => match platform_named(os) {
            None => Err(ResolveProblem::UnsupportedPlatform),
            Some(platform) => store_on(s, platform, home),
        },
    }
}

/// The store of a manifest on the operating system that is named `os`.
pub fn resolve_active_store(
    manifest_store: &ManifestCredentialStore,
    os: &str,
    home_dir: Option<String>,
) -> (r: Result<ResolvedCredentialStore, StoreResolveError>)
    ensures
        outcome(r) == store_for(*manifest_store, os@, home_dir.deep_view()),
{
    match home_dir {
        None => Err(StoreResolveError::Paths(PathsError::HomeDirectoryUnavailable)),
        Some(home) => match Platform::current(os) {
            None => Err(StoreResolveError::UnsupportedPlatform),
            Some(platform) => resolve_active_store_for_platform(
                manifest_store,
                platform,
                home.as_str(),
            ),
        },
    }
}

impl ResolvedCredentialStore {
    /// Whether there may be no active credential.
    pub open spec fn may_be_empty(&self) -> bool {
        match self.deep_view() {
            StoreView::File { .. } => false,
            StoreView::Keychain { allow_empty_active, .. } => allow_empty_active,
        }
    }

    /// Whether there may be no active credential.
    pub fn allows_missing_active(&self) -> (r: bool)
        ensures
            r == self.may_be_empty(),
    {
        match self {
            ResolvedCredentialStore::File(_) => false,
            ResolvedCredentialStore::Keychain(store) => store.allow_empty_active(),
        }
    }
}

/// What to do about the live credential: read it where it is there or has to be, and do without it
/// where it may be missing.
pub fn reads_live_credential(present: bool, allows_missing: bool) -> (r: bool)
    ensures
        r == (present || !allows_missing),
{
    present || !allows_missing
}

/// A manifest that is valid has a store on each platform that it supports, but for a keychain on
/// Windows, where there is none, and for a fallback on Linux that is named without its path or its
/// permissions.
pub proof fn valid_manifest_has_a_store(
    m: crate::plugin::Manifest,
    platform: Platform,
    home: Seq<char>,
)
    requires
        crate::plugin::manifest_problem(m) is None,
        m.platforms@.contains(platform),
        m.credential_store.kind == CredentialStoreKind::Keychain ==> platform != Platform::Windows,
        m.credential_store.linux_fallback_kind is Some ==> m.credential_store.linux_fallback_path is Some
            && m.credential_store.linux_fallback_permissions is Some,
    ensures
        store_on(m.credential_store, platform, home) is Ok,
{
}

} // verus!
