//! Plugin manifests: what a manifest holds, when it is valid, and how a directory of plugins becomes
//! a catalog.
use vstd::prelude::*;

use crate::text::{decimal, decimal_of, join2, join3, same, trim, trim_of};
use crate::text_map::TextMap;

pub mod catalog;
pub mod expand;

verus! {

/// What a plugin says of itself.
pub struct Manifest {
    pub id: String,
    pub display_name: String,
    pub version: String,
    pub author: String,
    pub description: String,
    pub platforms: Vec<Platform>,
    pub credential_store: CredentialStore,
    pub session_activation: Option<SessionActivationConfig>,
    pub aux_files: Vec<AuxFile>,
    pub identity_extract: Vec<IdentityExtract>,
    pub login: LoginConfig,
    pub usage_source: Vec<UsageSource>,
}

#[derive(Clone, Copy, Debug, PartialEq, Eq, Structural)]
pub enum Platform {
    Macos,
    Linux,
    Windows,
}

/// Where a plugin keeps the credential of the active account.
pub struct CredentialStore {
    pub kind: CredentialStoreKind,
    pub path: Option<String>,
    pub permissions: Option<u32>,
    pub macos_service: Option<String>,
    pub macos_account: Option<String>,
    pub linux_schema: Option<String>,
    pub linux_attributes: TextMap<String>,
    pub linux_fallback_kind: Option<CredentialStoreKind>,
    pub linux_fallback_path: Option<String>,
    pub linux_fallback_permissions: Option<u32>,
    pub allow_empty_active: bool,
}

#[derive(Clone, Copy, Debug, PartialEq, Eq, Structural)]
pub enum CredentialStoreKind {
    File,
    Keychain,
}

/// How one shell can use another account than the rest of the machine.
pub struct SessionActivationConfig {
    pub env_var: String,
    pub default_home: String,
    pub shared_paths: Vec<String>,
}

/// A file or directory that is switched along with the credential.
pub struct AuxFile {
    pub path: String,
    pub required: bool,
    pub kind: AuxFileKind,
}

#[derive(Clone, Copy, Debug, PartialEq, Eq, Structural)]
pub enum AuxFileKind {
    File,
    Dir,
}

/// How one field of an account's identity is found.
pub struct IdentityExtract {
    pub field: String,
    pub source: IdentitySource,
    pub json_file_path: Option<String>,
    pub json_pointer: Option<String>,
    pub fallback_source: Option<IdentitySource>,
    pub fallback_json_file_path: Option<String>,
    pub fallback_json_pointer: Option<String>,
    pub jwt_from: Option<ValueSource>,
    pub jwt_json_pointer: Option<String>,
    pub claim_pointer: Option<String>,
    pub fallback_jwt_from: Option<ValueSource>,
    pub fallback_jwt_json_pointer: Option<String>,
    pub fallback_claim_pointer: Option<String>,
    pub json_top_keys_from: Option<ValueSource>,
    pub fallback_json_top_keys_from: Option<ValueSource>,
    pub literal: Option<String>,
    pub fallback_literal: Option<String>,
}

#[derive(Clone, Copy, Debug, PartialEq, Eq, Structural)]
pub enum IdentitySource {
    JsonFile,
    JsonValue,
    JwtClaim,
    JsonTopKeys,
    Literal,
}

#[derive(Clone, Copy, Debug, PartialEq, Eq, Structural)]
pub enum ValueSource {
    JsonValue,
    JsonFile,
}

/// How a plugin logs in, and how the end of a login shows.
pub struct LoginConfig {
    pub cmd: Vec<String>,
    pub ready_marker_kind: ReadyMarkerKind,
    pub ready_marker_timeout_s: u64,
    pub ready_marker_path: Option<String>,
}

#[derive(Clone, Copy, Debug, PartialEq, Eq, Structural)]
pub enum ReadyMarkerKind {
    Keychain,
    File,
}

/// Where the usage of an account is read from.
pub struct UsageSource {
    pub kind: UsageSourceKind,
    pub method: Option<String>,
    pub url: Option<String>,
    pub headers: TextMap<String>,
    pub response_metric_pointer: TextMap<String>,
    pub response_quota_pointer: TextMap<String>,
    pub cache_ttl_s: Option<u64>,
    pub path: Option<String>,
    pub format: Option<UsageFormat>,
    pub timestamp_pointer: Option<String>,
    pub record_filter: Option<String>,
    pub metric_map: TextMap<String>,
    pub default_window: Option<String>,
}

#[derive(Clone, Copy, Debug, PartialEq, Eq, Structural)]
pub enum UsageSourceKind {
    LocalLog,
    ProviderApi,
}

#[derive(Clone, Copy, Debug, PartialEq, Eq, Structural)]
pub enum UsageFormat {
    Jsonl,
    Json,
    RegexLines,
}

/// Why a manifest is not valid.
pub struct ManifestValidationError(pub String);

impl Platform {
    /// The platform of the operating system that is named `os`, as `std::env::consts::OS` names it.
    pub fn current(os: &str) -> (r: Option<Platform>)
        ensures
            r == platform_named(os@),
    {
        if same(os, "macos") {
            Some(Platform::Macos)
        } else if same(os, "linux") {
            Some(Platform::Linux)
        } else if same(os, "windows") {
            Some(Platform::Windows)
        } else {
            None
        }
    }
}

pub open spec fn platform_named(os: Seq<char>) -> Option<Platform> {
    if os == "macos"@ {
        Some(Platform::Macos)
    } else if os == "linux"@ {
        Some(Platform::Linux)
    } else if os == "windows"@ {
        Some(Platform::Windows)
    } else {
        None
    }
}

// ---------------------------------------------------------------------------------------------
// Validity
// ---------------------------------------------------------------------------------------------
/// The problem that a check found, if any.
pub open spec fn problem(r: Result<(), ManifestValidationError>) -> Option<Seq<char>> {
    match r {
        Ok(_) => None,
        Err(e) => Some(e.0@),
    }
}

/// The first of two problems.
pub open spec fn first(a: Option<Seq<char>>, b: Option<Seq<char>>) -> Option<Seq<char>> {
    if a is Some {
        a
    } else {
        b
    }
}

pub open spec fn fails(holds: bool, message: Seq<char>) -> Option<Seq<char>> {
    if holds {
        None
    } else {
        Some(message)
    }
}

/// A text that holds more than white space is asked for.
pub open spec fn not_blank(field: Seq<char>, value: Seq<char>) -> Option<Seq<char>> {
    fails(trim_of(value).len() > 0, field + " must not be empty"@)
}

/// A value is asked for.
pub open spec fn needed(field: Seq<char>, present: bool) -> Option<Seq<char>> {
    fails(present, field + " is required"@)
}

/// The name of the item `i` of the list `list`, followed by `tail`.
pub open spec fn indexed(list: Seq<char>, i: int, tail: Seq<char>) -> Seq<char> {
    list + "["@ + decimal_of(i as nat) + "]"@ + tail
}

pub open spec fn no_entries(m: TextMap<String>) -> bool {
    m.deep_view() == Map::<Seq<char>, Seq<char>>::empty()
}

pub open spec fn store_problem(s: CredentialStore, platforms: Seq<Platform>) -> Option<Seq<char>> {
    match s.kind {
        CredentialStoreKind::File => first(
            needed("credential_store.path"@, s.path is Some),
            needed("credential_store.permissions"@, s.permissions is Some),
        ),
        CredentialStoreKind::Keychain => {
            let macos = first(
                needed("credential_store.macos_service"@, s.macos_service is Some),
                needed("credential_store.macos_account"@, s.macos_account is Some),
            );
            let secret_service = s.linux_schema is Some && !no_entries(s.linux_attributes);
            let file_fallback = s.linux_fallback_kind == Some(CredentialStoreKind::File)
                && s.linux_fallback_path is Some && s.linux_fallback_permissions is Some;
            let linux = fails(
                secret_service || file_fallback,
                "credential_store on linux requires secret-service fields or a file fallback"@,
            );
            let fallback = fails(
                s.linux_fallback_kind is None || s.linux_fallback_kind == Some(
                    CredentialStoreKind::File,
                ),
                "credential_store.linux_fallback_kind currently only supports \"file\""@,
            );
            first(
                if platforms.contains(Platform::Macos) {
                    macos
                } else {
                    None
                },
                first(
                    if platforms.contains(Platform::Linux) {
                        linux
                    } else {
                        None
                    },
                    fallback,
                ),
            )
        },
    }
}

/// The first problem of the shared paths from `i` on.
pub open spec fn shared_paths_problem(paths: Seq<Seq<char>>, i: int) -> Option<Seq<char>>
    decreases paths.len() - i,
{
    if i >= paths.len() {
        None
    } else {
        first(
            not_blank(indexed("session_activation.shared_paths"@, i, ""@), paths[i]),
            shared_paths_problem(paths, i + 1),
        )
    }
}

pub open spec fn session_problem(c: SessionActivationConfig) -> Option<Seq<char>> {
    first(
        not_blank("session_activation.env_var"@, c.env_var@),
        first(
            not_blank("session_activation.default_home"@, c.default_home@),
            shared_paths_problem(c.shared_paths.deep_view(), 0),
        ),
    )
}

pub open spec fn aux_problem(a: AuxFile, i: int) -> Option<Seq<char>> {
    not_blank(indexed("aux_files"@, i, ".path"@), a.path@)
}

pub open spec fn identity_source_problem(
    prefix: Seq<char>,
    source: IdentitySource,
    r: IdentityExtract,
) -> Option<Seq<char>> {
    match source {
        IdentitySource::JsonFile => first(
            needed(prefix + ".json_file_path"@, r.json_file_path is Some),
            needed(prefix + ".json_pointer"@, r.json_pointer is Some),
        ),
        IdentitySource::JsonValue => needed(prefix + ".json_pointer"@, r.json_pointer is Some),
        IdentitySource::JwtClaim => first(
            needed(prefix + ".jwt_from"@, r.jwt_from is Some),
            first(
                needed(prefix + ".jwt_json_pointer"@, r.jwt_json_pointer is Some),
                needed(prefix + ".claim_pointer"@, r.claim_pointer is Some),
            ),
        ),
        IdentitySource::JsonTopKeys => needed(
            prefix + ".json_top_keys_from"@,
            r.json_top_keys_from is Some,
        ),
        IdentitySource::Literal => needed(prefix + ".literal"@, r.literal is Some),
    }
}

pub open spec fn fallback_source_problem(
    prefix: Seq<char>,
    source: IdentitySource,
    r: IdentityExtract,
) -> Option<Seq<char>> {
    match source {
        IdentitySource::JsonFile => first(
            needed(prefix + ".fallback_json_file_path"@, r.fallback_json_file_path is Some),
            needed(prefix + ".fallback_json_pointer"@, r.fallback_json_pointer is Some),
        ),
        IdentitySource::JsonValue => needed(
            prefix + ".fallback_json_pointer"@,
            r.fallback_json_pointer is Some,
        ),
        IdentitySource::JwtClaim => first(
            needed(prefix + ".fallback_jwt_from"@, r.fallback_jwt_from is Some),
            first(
                needed(
                    prefix + ".fallback_jwt_json_pointer"@,
                    r.fallback_jwt_json_pointer is Some,
                ),
                needed(prefix + ".fallback_claim_pointer"@, r.fallback_claim_pointer is Some),
            ),
        ),
        IdentitySource::JsonTopKeys => needed(
            prefix + ".fallback_json_top_keys_from"@,
            r.fallback_json_top_keys_from is Some,
        ),
        IdentitySource::Literal => needed(
            prefix + ".fallback_literal"@,
            r.fallback_literal is Some,
        ),
    }
}

pub open spec fn identity_problem(r: IdentityExtract, i: int) -> Option<Seq<char>> {
    let prefix = indexed("identity_extract"@, i, ""@);
    first(
        not_blank(indexed("identity_extract"@, i, ".field"@), r.field@),
        first(
            identity_source_problem(prefix, r.source, r),
            match r.fallback_source {
                Some(source) => fallback_source_problem(prefix, source, r),
                None => None,
            },
        ),
    )
}

pub open spec fn login_problem(l: LoginConfig) -> Option<Seq<char>> {
    first(
        fails(l.cmd.len() > 0, "login.cmd must not be empty"@),
        first(
            fails(
                l.ready_marker_timeout_s > 0,
                "login.ready_marker_timeout_s must be greater than 0"@,
            ),
            if l.ready_marker_kind == ReadyMarkerKind::File {
                needed("login.ready_marker_path"@, l.ready_marker_path is Some)
            } else {
                None
            },
        ),
    )
}

pub open spec fn usage_problem(u: UsageSource, i: int) -> Option<Seq<char>> {
    match u.kind {
        UsageSourceKind::LocalLog => first(
            needed(indexed("usage_source"@, i, ".path"@), u.path is Some),
            first(
                needed(indexed("usage_source"@, i, ".format"@), u.format is Some),
                first(
                    needed(
                        indexed("usage_source"@, i, ".timestamp_pointer"@),
                        u.timestamp_pointer is Some,
                    ),
                    fails(
                        !no_entries(u.metric_map),
                        indexed("usage_source"@, i, ".metric_map must not be empty"@),
                    ),
                ),
            ),
        ),
        UsageSourceKind::ProviderApi => first(
            needed(indexed("usage_source"@, i, ".method"@), u.method is Some),
            first(
                needed(indexed("usage_source"@, i, ".url"@), u.url is Some),
                fails(
                    !no_entries(u.response_metric_pointer)
                        || !no_entries(u.response_quota_pointer),
                    indexed(
                        "usage_source"@,
                        i,
                        " requires response_metric_pointer or response_quota_pointer"@,
                    ),
                ),
            ),
        ),
    }
}

pub open spec fn aux_files_problem(files: Seq<AuxFile>, i: int) -> Option<Seq<char>>
    decreases files.len() - i,
{
    if i >= files.len() {
        None
    } else {
        first(aux_problem(files[i], i), aux_files_problem(files, i + 1))
    }
}

pub open spec fn identities_problem(rules: Seq<IdentityExtract>, i: int) -> Option<Seq<char>>
    decreases rules.len() - i,
{
    if i >= rules.len() {
        None
    } else {
        first(identity_problem(rules[i], i), identities_problem(rules, i + 1))
    }
}

pub open spec fn usages_problem(sources: Seq<UsageSource>, i: int) -> Option<Seq<char>>
    decreases sources.len() - i,
{
    if i >= sources.len() {
        None
    } else {
        first(usage_problem(sources[i], i), usages_problem(sources, i + 1))
    }
}

/// The first problem of a manifest, in the order in which its parts are checked.
pub open spec fn manifest_problem(m: Manifest) -> Option<Seq<char>> {
    first(
        not_blank("id"@, m.id@),
        first(
            not_blank("display_name"@, m.display_name@),
            first(
                not_blank("version"@, m.version@),
                first(
                    not_blank("author"@, m.author@),
                    first(
                        not_blank("description"@, m.description@),
                        first(
                            fails(
                                m.platforms.len() > 0,
                                "platforms must declare at least one supported platform"@,
                            ),
                            first(
                                store_problem(m.credential_store, m.platforms@),
                                first(
                                    match m.session_activation {
                                        Some(c) => session_problem(c),
                                        None => None,
                                    },
                                    first(
                                        login_problem(m.login),
                                        first(
                                            aux_files_problem(m.aux_files@, 0),
                                            first(
                                                identities_problem(m.identity_extract@, 0),
                                                usages_problem(m.usage_source@, 0),
                                            ),
                                        ),
                                    ),
                                ),
                            ),
                        ),
                    ),
                ),
            ),
        ),
    )
}

fn index_name(list: &str, i: usize, tail: &str) -> (r: String)
    ensures
        r@ == indexed(list@, i as int, tail@),
{
    let mut out = join3(list, "[", decimal(i as u64).as_str());
    out.append("]");
    out.append(tail);
    out
}

fn require_non_empty(field: &str, value: &str) -> (r: Result<(), ManifestValidationError>)
    ensures
        problem(r) == not_blank(field@, value@),
{
    if trim(value).as_str().is_empty() {
        Err(ManifestValidationError(join2(field, " must not be empty")))
    } else {
        Ok(())
    }
}

fn require_option<T>(field: &str, value: &Option<T>) -> (r: Result<(), ManifestValidationError>)
    ensures
        problem(r) == needed(field@, value is Some),
{
    if value.is_none() {
        Err(ManifestValidationError(join2(field, " is required")))
    } else {
        Ok(())
    }
}

/// Whether `platform` is one of `platforms`.
pub fn has_platform(platforms: &Vec<Platform>, platform: Platform) -> (r: bool)
    ensures
        r == platforms@.contains(platform),
{
    let mut i: usize = 0;
    while i < platforms.len()
        invariant
            i <= platforms.len(),
            forall|j: int| 0 <= j < i ==> platforms@[j] != platform,
        decreases platforms.len() - i,
    {
        if platforms[i] == platform {
            return true;
        }
        i = i + 1;
    }
    false
}

impl CredentialStore {
    pub fn validate(&self, platforms: &Vec<Platform>) -> (r: Result<(), ManifestValidationError>)
        ensures
            problem(r) == store_problem(*self, platforms@),
    {
        match self.kind {
            CredentialStoreKind::File => {
                let r = require_option("credential_store.path", &self.path);
                if r.is_err() {
                    return r;
                }
                require_option("credential_store.permissions", &self.permissions)
            },
            CredentialStoreKind::Keychain => {
                if has_platform(platforms, Platform::Macos) {
                    let r = require_option("credential_store.macos_service", &self.macos_service);
                    if r.is_err() {
                        return r;
                    }
                    let r = require_option("credential_store.macos_account", &self.macos_account);
                    if r.is_err() {
                        return r;
                    }
                }
                let file_kind = match self.linux_fallback_kind {
                    Some(kind) => kind == CredentialStoreKind::File,
                    None => false,
                };
                if has_platform(platforms, Platform::Linux) {
                    let secret_service = self.linux_schema.is_some()
                        && !self.linux_attributes.is_empty();
                    let file_fallback = file_kind && self.linux_fallback_path.is_some()
                        && self.linux_fallback_permissions.is_some();
                    if !secret_service && !file_fallback {
                        return Err(
                            ManifestValidationError(
                                "credential_store on linux requires secret-service fields or a file fallback".to_owned(),
                            ),
                        );
                    }
                }
                if self.linux_fallback_kind.is_some() && !file_kind {
                    return Err(
                        ManifestValidationError(
                            "credential_store.linux_fallback_kind currently only supports \"file\"".to_owned(),
                        ),
                    );
                }
                Ok(())
            },
        }
    }
}

impl SessionActivationConfig {
    pub fn validate(&self) -> (r: Result<(), ManifestValidationError>)
        ensures
            problem(r) == session_problem(*self),
    {
        let r = require_non_empty("session_activation.env_var", self.env_var.as_str());
        if r.is_err() {
            return r;
        }
        let r = require_non_empty("session_activation.default_home", self.default_home.as_str());
        if r.is_err() {
            return r;
        }
        let ghost all = shared_paths_problem(self.shared_paths.deep_view(), 0);
        let mut i: usize = 0;
        while i < self.shared_paths.len()
            invariant
                i <= self.shared_paths.len(),
                session_problem(*self) == all,
                all == shared_paths_problem(self.shared_paths.deep_view(), i as int),
            decreases self.shared_paths.len() - i,
        {
            let name = index_name("session_activation.shared_paths", i, "");
            let r = require_non_empty(name.as_str(), self.shared_paths[i].as_str());
            if r.is_err() {
                return r;
            }
            i = i + 1;
        }
        Ok(())
    }
}

impl AuxFile {
    pub fn validate(&self, index: usize) -> (r: Result<(), ManifestValidationError>)
        ensures
            problem(r) == aux_problem(*self, index as int),
    {
        require_non_empty(index_name("aux_files", index, ".path").as_str(), self.path.as_str())
    }
}

fn validate_identity_source(prefix: &str, source: IdentitySource, rule: &IdentityExtract) -> (r:
    Result<(), ManifestValidationError>)
    ensures
        problem(r) == identity_source_problem(prefix@, source, *rule),
{
    match source {
        IdentitySource::JsonFile => {
            let r = require_option(
                join2(prefix, ".json_file_path").as_str(),
                &rule.json_file_path,
            );
            if r.is_err() {
                return r;
            }
            require_option(join2(prefix, ".json_pointer").as_str(), &rule.json_pointer)
        },
        IdentitySource::JsonValue => require_option(
            join2(prefix, ".json_pointer").as_str(),
            &rule.json_pointer,
        ),
        IdentitySource::JwtClaim => {
            let r = require_option(join2(prefix, ".jwt_from").as_str(), &rule.jwt_from);
            if r.is_err() {
                return r;
            }
            let r = require_option(
                join2(prefix, ".jwt_json_pointer").as_str(),
                &rule.jwt_json_pointer,
            );
            if r.is_err() {
                return r;
            }
            require_option(join2(prefix, ".claim_pointer").as_str(), &rule.claim_pointer)
        },
        IdentitySource::JsonTopKeys => require_option(
            join2(prefix, ".json_top_keys_from").as_str(),
            &rule.json_top_keys_from,
        ),
        IdentitySource::Literal => require_option(
            join2(prefix, ".literal").as_str(),
            &rule.literal,
        ),
    }
}

fn validate_fallback_identity_source(
    prefix: &str,
    source: IdentitySource,
    rule: &IdentityExtract,
) -> (r: Result<(), ManifestValidationError>)
    ensures
        problem(r) == fallback_source_problem(prefix@, source, *rule),
{
    match source {
        IdentitySource::JsonFile => {
            let r = require_option(
                join2(prefix, ".fallback_json_file_path").as_str(),
                &rule.fallback_json_file_path,
            );
            if r.is_err() {
                return r;
            }
            require_option(
                join2(prefix, ".fallback_json_pointer").as_str(),
                &rule.fallback_json_pointer,
            )
        },
        IdentitySource::JsonValue => require_option(
            join2(prefix, ".fallback_json_pointer").as_str(),
            &rule.fallback_json_pointer,
        ),
        IdentitySource::JwtClaim => {
            let r = require_option(
                join2(prefix, ".fallback_jwt_from").as_str(),
                &rule.fallback_jwt_from,
            );
            if r.is_err() {
                return r;
            }
            let r = require_option(
                join2(prefix, ".fallback_jwt_json_pointer").as_str(),
                &rule.fallback_jwt_json_pointer,
            );
            if r.is_err() {
                return r;
            }
            require_option(
                join2(prefix, ".fallback_claim_pointer").as_str(),
                &rule.fallback_claim_pointer,
            )
        },
        IdentitySource::JsonTopKeys => require_option(
            join2(prefix, ".fallback_json_top_keys_from").as_str(),
            &rule.fallback_json_top_keys_from,
        ),
        IdentitySource::Literal => require_option(
            join2(prefix, ".fallback_literal").as_str(),
            &rule.fallback_literal,
        ),
    }
}

impl IdentityExtract {
    pub fn validate(&self, index: usize) -> (r: Result<(), ManifestValidationError>)
        ensures
            problem(r) == identity_problem(*self, index as int),
    {
        let r = require_non_empty(
            index_name("identity_extract", index, ".field").as_str(),
            self.field.as_str(),
        );
        if r.is_err() {
            return r;
        }
        let prefix = index_name("identity_extract", index, "");
        let r = validate_identity_source(prefix.as_str(), self.source, self);
        if r.is_err() {
            return r;
        }
        match self.fallback_source {
            Some(source) => validate_fallback_identity_source(prefix.as_str(), source, self),
            None => Ok(()),
        }
    }
}

impl LoginConfig {
    pub fn validate(&self) -> (r: Result<(), ManifestValidationError>)
        ensures
            problem(r) == login_problem(*self),
    {
        if self.cmd.len() == 0 {
            return Err(ManifestValidationError("login.cmd must not be empty".to_owned()));
        }
        if self.ready_marker_timeout_s == 0 {
            return Err(
                ManifestValidationError(
                    "login.ready_marker_timeout_s must be greater than 0".to_owned(),
                ),
            );
        }
        if self.ready_marker_kind == ReadyMarkerKind::File {
            return require_option("login.ready_marker_path", &self.ready_marker_path);
        }
        Ok(())
    }
}

impl UsageSource {
    pub fn validate(&self, index: usize) -> (r: Result<(), ManifestValidationError>)
        ensures
            problem(r) == usage_problem(*self, index as int),
    {
        match self.kind {
            UsageSourceKind::LocalLog => {
                let r = require_option(
                    index_name("usage_source", index, ".path").as_str(),
                    &self.path,
                );
                if r.is_err() {
                    return r;
                }
                let r = require_option(
                    index_name("usage_source", index, ".format").as_str(),
                    &self.format,
                );
                if r.is_err() {
                    return r;
                }
                let r = require_option(
                    index_name("usage_source", index, ".timestamp_pointer").as_str(),
                    &self.timestamp_pointer,
                );
                if r.is_err() {
                    return r;
                }
                if self.metric_map.is_empty() {
                    return Err(
                        ManifestValidationError(
                            index_name("usage_source", index, ".metric_map must not be empty"),
                        ),
                    );
                }
                Ok(())
            },
            UsageSourceKind::ProviderApi => {
                let r = require_option(
                    index_name("usage_source", index, ".method").as_str(),
                    &self.method,
                );
                if r.is_err() {
                    return r;
                }
                let r = require_option(
                    index_name("usage_source", index, ".url").as_str(),
                    &self.url,
                );
                if r.is_err() {
                    return r;
                }
                if self.response_metric_pointer.is_empty() && self.response_quota_pointer.is_empty() {
                    return Err(
                        ManifestValidationError(
                            index_name(
                                "usage_source",
                                index,
                                " requires response_metric_pointer or response_quota_pointer",
                            ),
                        ),
                    );
                }
                Ok(())
            },
        }
    }
}

impl Manifest {
    /// Whether the manifest is valid, and the first problem where it is not.
    pub fn validate(&self) -> (r: Result<(), ManifestValidationError>)
        ensures
            problem(r) == manifest_problem(*self),
    {
        let r = require_non_empty("id", self.id.as_str());
        if r.is_err() {
            return r;
        }
        let r = require_non_empty("display_name", self.display_name.as_str());
        if r.is_err() {
            return r;
        }
        let r = require_non_empty("version", self.version.as_str());
        if r.is_err() {
            return r;
        }
        let r = require_non_empty("author", self.author.as_str());
        if r.is_err() {
            return r;
        }
        let r = require_non_empty("description", self.description.as_str());
        if r.is_err() {
            return r;
        }
        if self.platforms.len() == 0 {
            return Err(
                ManifestValidationError(
                    "platforms must declare at least one supported platform".to_owned(),
                ),
            );
        }
        let r = self.credential_store.validate(&self.platforms);
        if r.is_err() {
            return r;
        }
        match &self.session_activation {
            Some(config) => {
                let r = config.validate();
                if r.is_err() {
                    return r;
                }
            },
            None => {},
        }
        let r = self.login.validate();
        if r.is_err() {
            return r;
        }
        self.validate_lists()
    }

    fn validate_lists(&self) -> (r: Result<(), ManifestValidationError>)
        ensures
            problem(r) == first(
                aux_files_problem(self.aux_files@, 0),
                first(
                    identities_problem(self.identity_extract@, 0),
                    usages_problem(self.usage_source@, 0),
                ),
            ),
    {
        let mut i: usize = 0;
        while i < self.aux_files.len()
            invariant
                i <= self.aux_files.len(),
                aux_files_problem(self.aux_files@, 0) == aux_files_problem(
                    self.aux_files@,
                    i as int,
                ),
            decreases self.aux_files.len() - i,
        {
            let r = self.aux_files[i].validate(i);
            if r.is_err() {
                return r;
            }
            i = i + 1;
        }
        assert(aux_files_problem(self.aux_files@, 0) is None);
        let mut i: usize = 0;
        while i < self.identity_extract.len()
            invariant
                i <= self.identity_extract.len(),
                aux_files_problem(self.aux_files@, 0) is None,
                identities_problem(self.identity_extract@, 0) == identities_problem(
                    self.identity_extract@,
                    i as int,
                ),
            decreases self.identity_extract.len() - i,
        {
            let r = self.identity_extract[i].validate(i);
            if r.is_err() {
                return r;
            }
            i = i + 1;
        }
        assert(identities_problem(self.identity_extract@, 0) is None);
        let mut i: usize = 0;
        while i < self.usage_source.len()
            invariant
                i <= self.usage_source.len(),
                aux_files_problem(self.aux_files@, 0) is None,
                identities_problem(self.identity_extract@, 0) is None,
                usages_problem(self.usage_source@, 0) == usages_problem(
                    self.usage_source@,
                    i as int,
                ),
            decreases self.usage_source.len() - i,
        {
            let r = self.usage_source[i].validate(i);
            if r.is_err() {
                return r;
            }
            i = i + 1;
        }
        Ok(())
    }

    /// Whether the plugin runs on the operating system that is named `os`.
    pub fn supports_current_platform(&self, os: &str) -> (r: bool)
        ensures
            r == supports(*self, os@),
    {
        match Platform::current(os) {
            Some(platform) => has_platform(&self.platforms, platform),
            None => false,
        }
    }
}

/// Whether the plugin runs on the operating system that is named `os`.
pub open spec fn supports(m: Manifest, os: Seq<char>) -> bool {
    match platform_named(os) {
        Some(platform) => m.platforms@.contains(platform),
        None => false,
    }
}

} // verus!
