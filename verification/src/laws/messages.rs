//! What messages say: which words they use, and what they name in which place.
use vstd::prelude::*;

use crate::account::AccountError;
use crate::claude::ClaudeErrorView;
use crate::codex::CodexErrorView;
use crate::gemini::GeminiError;
use crate::identity::JwtDecodeError;
use crate::paths::{PathsError, duration_text};
use crate::plugin::catalog::{ManifestLoadError, PluginScanError};
use crate::registry::RegistryError;
use crate::session::SessionError;
use crate::store::{StoreError, StoreResolveError};
use crate::switch::{SwitchError, SwitchFailure};
use crate::usage::UsageError;

verus! {

/// Messages on accounts name what they are about, each in its place.
pub proof fn messages_on_accounts(e: AccountError)
    ensures
        e is Paths ==> e.text() == "failed to resolve aswitch paths"@,
        e is Registry ==> e.text() == "failed to load or save registry"@,
        e is StoreResolve ==> e.text() == "failed to resolve credential store"@,
        e is PluginScan ==> e.text() == "failed to scan plugins"@,
        e matches AccountError::Switch(failure) ==> e.text() == failure.text(),
        e matches AccountError::AccountAlreadyExists { plugin_id, alias } ==> e.text()
            == ("account "@ + plugin_id@ + "/"@ + alias@
            + " already exists; rerun with --force to overwrite"@),
        e matches AccountError::NoActiveCredentials { plugin_id } ==> e.text() == ("plugin "@
            + plugin_id@ + " has no active credentials to capture; run the native login first"@),
        e matches AccountError::AccountNotFound { plugin_id, alias } ==> e.text() == ("account "@
            + plugin_id@ + "/"@ + alias@ + " does not exist"@),
        e matches AccountError::AliasUnchanged { plugin_id, alias } ==> e.text() == ("account "@
            + plugin_id@ + "/"@ + alias@ + " cannot be renamed to the same alias"@),
        e matches AccountError::TargetAliasExists { plugin_id, alias } ==> e.text() == ("account "@
            + plugin_id@ + "/"@ + alias@ + " already exists"@),
        e matches AccountError::RemoveActiveRequiresForce { plugin_id, alias } ==> e.text()
            == ("cannot remove active account "@ + plugin_id@ + "/"@ + alias@
            + " without --force"@),
        e matches AccountError::BackupPathNotDirectory { path } ==> e.text()
            == ("account backup path "@ + path@ + " is not a directory"@),
        e matches AccountError::RemovePath { path } ==> e.text() == ("failed to remove path "@
            + path@),
        e matches AccountError::RenamePath { from, to } ==> e.text()
            == ("failed to rename path from "@ + from@ + " to "@ + to@),
{
}

/// Messages on sessions of a provider name what they are about, each in its place.
pub proof fn messages_on_sessions_of_a_provider(e: ClaudeErrorView, title: Seq<char>)
    ensures
        e is ParseCredentials ==> e.text(title) == ("failed to parse "@ + title + " credentials"@),
        e is MissingAccessToken ==> e.text(title) == (title
            + " credentials do not contain an access token"@),
        e is MissingRefreshToken ==> e.text(title) == (title
            + " credentials do not contain a refresh token"@),
        e matches ClaudeErrorView::RateLimited { retry_after } ==> e.text(title) == (title
            + " usage API is rate limited"@ + retry_after),
        e is AuthenticationRequired ==> e.text(title) == (title + " authentication is required"@),
        e matches ClaudeErrorView::ApiRequest { url, message } ==> e.text(title) == (title
            + " API request to "@ + url + " failed: "@ + message),
{
}

/// Messages on tokens of a provider name what they are about, each in its place.
pub proof fn messages_on_tokens_of_a_provider(e: CodexErrorView)
    ensures
        e is ParseCredentials ==> e.text() == "failed to parse Codex credentials"@,
        e is MissingAccessToken ==> e.text() == "Codex credentials do not contain an access token"@,
        e is MissingRefreshToken
            ==> e.text() == "Codex credentials do not contain a refresh token"@,
        e matches CodexErrorView::ApiRequest { url, message } ==> e.text()
            == ("Codex usage API request to "@ + url + " failed: "@ + message),
        e is AuthenticationRequired ==> e.text() == "Codex authentication is required"@,
{
}

/// Messages on buckets of a provider name what they are about, each in its place.
pub proof fn messages_on_buckets_of_a_provider(e: GeminiError)
    ensures
        e is Paths ==> e.text() == "failed to resolve home directory"@,
        e matches GeminiError::ReadCredentials { path } ==> e.text()
            == ("failed to read Gemini credentials from "@ + path@),
        e is ParseCredentials ==> e.text() == "failed to parse Gemini credentials"@,
        e is MissingAccessToken
            ==> e.text() == "Gemini credentials do not contain an access token"@,
        e is AccessTokenExpired ==> e.text() == "Gemini access token is expired"@,
        e matches GeminiError::ApiRequest { url, message } ==> e.text()
            == ("Gemini API request to "@ + url@ + " failed: "@ + message@),
{
}

/// Messages on tokens name what they are about, each in its place.
pub proof fn messages_on_tokens(e: JwtDecodeError)
    ensures
        e is InvalidFormat ==> e.text() == "jwt must contain three segments"@,
        e is Base64 ==> e.text() == "invalid base64url payload"@,
        e is Json ==> e.text() == "invalid jwt payload json"@,
{
}

/// Messages on paths name what they are about, each in its place.
pub proof fn messages_on_paths(e: PathsError)
    ensures
        e is HomeDirectoryUnavailable ==> e.text() == "home directory is unavailable"@,
        e matches PathsError::OpenFile { path } ==> e.text() == ("failed to open file "@ + path@),
        e matches PathsError::CreateDirectory { path } ==> e.text()
            == ("failed to create directory "@ + path@),
        e matches PathsError::LockFile { path } ==> e.text() == ("failed to lock file "@ + path@),
        e matches PathsError::LockTimeout { path, timeout_ms } ==> e.text() == ("timed out after "@
            + duration_text(timeout_ms as nat) + " waiting for lock file "@ + path@),
{
}

/// Messages on manifests name what they are about, each in its place.
pub proof fn messages_on_manifests(e: ManifestLoadError)
    ensures
        e matches ManifestLoadError::Read { path } ==> e.text()
            == ("failed to read plugin manifest "@ + path@),
        e matches ManifestLoadError::Parse { path } ==> e.text()
            == ("failed to parse plugin manifest "@ + path@),
        e matches ManifestLoadError::Validation { path, source } ==> e.text()
            == ("invalid plugin manifest "@ + path@ + ": "@ + source.0@),
{
}

/// Messages on plugins name what they are about, each in its place.
pub proof fn messages_on_plugins(e: PluginScanError)
    ensures
        e matches PluginScanError::ReadDirectory { path } ==> e.text()
            == ("failed to read plugin directory "@ + path@),
{
}

/// Messages on the registry name what they are about, each in its place.
pub proof fn messages_on_the_registry(e: RegistryError)
    ensures
        e is Paths ==> e.text() == "failed to prepare aswitch directories"@,
        e matches RegistryError::Read { path } ==> e.text() == ("failed to read registry file "@
            + path@),
        e matches RegistryError::Backup { from, to } ==> e.text()
            == ("failed to backup corrupted registry from "@ + from@ + " to "@ + to@),
        e matches RegistryError::Write { path } ==> e.text() == ("failed to write registry file "@
            + path@),
        e matches RegistryError::Rename { from, to } ==> e.text()
            == ("failed to rename registry temp file from "@ + from@ + " to "@ + to@),
        e is Serialize ==> e.text() == "failed to serialize registry"@,
{
}

/// Messages on homes name what they are about, each in its place.
pub proof fn messages_on_homes(e: SessionError)
    ensures
        e is Paths ==> e.text() == "failed to resolve aswitch paths"@,
        e is Manifest ==> e.text() == "failed to load plugin manifest"@,
        e matches SessionError::ActivationNotSupported { plugin_id } ==> e.text() == ("plugin "@
            + plugin_id@ + " does not support terminal-scoped activation"@),
        e matches SessionError::UnsupportedCredentialStore { plugin_id } ==> e.text() == ("plugin "@
            + plugin_id@ + " only supports terminal activation with file credentials"@),
        e matches SessionError::AccountBackupMissing { plugin_id, alias, path } ==> e.text()
            == ("account backup for "@ + plugin_id@ + "/"@ + alias@ + " is missing at "@ + path@),
        e matches SessionError::CredentialPathOutsideDefaultHome { plugin_id, credential_path,
            default_home } ==> e.text() == ("plugin "@ + plugin_id@ + " credential path "@
            + credential_path@ + " must stay under session_activation.default_home "@
            + default_home@),
        e matches SessionError::AuxPathOutsideDefaultHome { plugin_id, aux_path, default_home }
            ==> e.text() == ("plugin "@ + plugin_id@ + " aux path "@ + aux_path@
            + " must stay under session_activation.default_home "@ + default_home@),
        e matches SessionError::ReadFile { path } ==> e.text() == ("failed to read file "@ + path@),
        e matches SessionError::CreateDirectory { path } ==> e.text()
            == ("failed to create directory "@ + path@),
        e matches SessionError::RemovePath { path } ==> e.text() == ("failed to remove path "@
            + path@),
        e matches SessionError::WriteFile { path } ==> e.text() == ("failed to write file "@
            + path@),
        e matches SessionError::RenamePath { from, to } ==> e.text()
            == ("failed to rename path from "@ + from@ + " to "@ + to@),
        e matches SessionError::SymlinkPath { from, to } ==> e.text()
            == ("failed to symlink path from "@ + from@ + " to "@ + to@),
{
}

/// Messages on places of credentials name what they are about, each in its place.
pub proof fn messages_on_places_of_credentials(e: StoreResolveError)
    ensures
        e is Paths ==> e.text() == "failed to resolve user paths"@,
        e matches StoreResolveError::MissingField(field) ==> e.text()
            == ("missing required manifest field: "@ + field@),
        e is UnsupportedPlatform ==> e.text() == "unsupported current platform"@,
{
}

/// Messages on credentials name what they are about, each in its place.
pub proof fn messages_on_credentials(e: StoreError)
    ensures
        e matches StoreError::NotFound { path } ==> e.text() == ("credential file "@ + path@
            + " does not exist"@),
        e matches StoreError::KeychainItemNotFound { service, account } ==> e.text()
            == ("keychain item not found for service "@ + service@ + " account "@ + account@),
        e matches StoreError::SecretServiceItemNotFound { attributes } ==> e.text()
            == ("secret-service item not found for attributes "@ + attributes@),
        e matches StoreError::Read { path } ==> e.text() == ("failed to read credential file "@
            + path@),
        e matches StoreError::CreateDirectory { path } ==> e.text()
            == ("failed to create parent directory "@ + path@),
        e matches StoreError::Write { path } ==> e.text() == ("failed to write credential file "@
            + path@),
        e matches StoreError::Remove { path } ==> e.text() == ("failed to remove credential file "@
            + path@),
        e matches StoreError::Rename { from, to } ==> e.text()
            == ("failed to rename credential temp file from "@ + from@ + " to "@ + to@),
        e is InvalidKeychainEncoding ==> e.text() == "keychain credentials must be valid UTF-8"@,
        e matches StoreError::CommandSpawn { program } ==> e.text() == ("failed to run command "@
            + program@),
        e matches StoreError::CommandFailure { program, action, service, account, status, stderr }
            ==> e.text() == ("command "@ + program@ + " failed during "@ + action@
            + " for keychain item "@ + service@ + "/"@ + account@ + " with status "@ + status@
            + ": "@ + stderr@),
        e matches StoreError::SecretServiceFailure { action, locator, message } ==> e.text()
            == ("secret-service operation "@ + action@ + " failed for "@ + locator@ + ": "@
            + message@),
        e is UnsupportedKeychainBackend
            ==> e.text() == "keychain backend is not available on this platform"@,
{
}

/// Messages on switching name what they are about, each in its place.
pub proof fn messages_on_switching(e: SwitchFailure)
    ensures
        e is Paths ==> e.text() == "failed to resolve aswitch paths"@,
        e is Manifest ==> e.text() == "failed to load plugin manifest"@,
        e is Registry ==> e.text() == "failed to load or save registry"@,
        e is StoreResolve ==> e.text() == "failed to resolve credential store"@,
        e is Store ==> e.text() == "credential store operation failed"@,
        e matches SwitchFailure::PluginNotFound { plugin_id, path } ==> e.text() == ("plugin "@
            + plugin_id@ + " manifest not found at "@ + path@),
        e matches SwitchFailure::TargetAccountNotFound { plugin_id, alias } ==> e.text()
            == ("target account "@ + plugin_id@ + "/"@ + alias@ + " does not exist in registry"@),
        e matches SwitchFailure::TargetBackupMissing { plugin_id, alias, path } ==> e.text()
            == ("account backup for "@ + plugin_id@ + "/"@ + alias@ + " is missing at "@ + path@),
        e matches SwitchFailure::MissingRequiredPath { path } ==> e.text()
            == ("required auxiliary path "@ + path@ + " is missing"@),
        e matches SwitchFailure::ExpectedFile { path } ==> e.text() == ("expected a file at "@
            + path@),
        e matches SwitchFailure::ExpectedDirectory { path } ==> e.text()
            == ("expected a directory at "@ + path@),
        e matches SwitchFailure::ReadFile { path } ==> e.text() == ("failed to read file "@
            + path@),
        e matches SwitchFailure::CreateDirectory { path } ==> e.text()
            == ("failed to create directory "@ + path@),
        e matches SwitchFailure::WriteFile { path } ==> e.text() == ("failed to write file "@
            + path@),
        e matches SwitchFailure::RenamePath { from, to } ==> e.text()
            == ("failed to rename path from "@ + from@ + " to "@ + to@),
        e matches SwitchFailure::RemovePath { path } ==> e.text() == ("failed to remove path "@
            + path@),
        e is SimulatedFailureAfterPrimaryWrite
            ==> e.text() == "simulated failure after writing active credentials"@,
{
}

/// Messages on failed switches name what they are about, each in its place.
pub proof fn messages_on_failed_switches(e: SwitchError)
    ensures
        e matches SwitchError::Failed(failure) ==> e.text() == failure.text(),
        e matches SwitchError::RollbackSucceeded { cause } ==> e.text()
            == ("switch failed but rollback completed: "@ + cause.text()),
        e matches SwitchError::RollbackFailed { cause, rollback } ==> e.text()
            == ("switch failed and rollback failed: "@ + cause.text() + "; rollback error: "@
            + rollback@),
{
}

/// Messages on usage name what they are about, each in its place.
pub proof fn messages_on_usage(e: UsageError)
    ensures
        e is Paths ==> e.text() == "failed to resolve aswitch paths"@,
        e is Registry ==> e.text() == "failed to load or save registry"@,
        e is Manifest ==> e.text() == "failed to load plugin manifest"@,
        e is StoreResolve ==> e.text() == "failed to resolve credential store"@,
        e is Store ==> e.text() == "credential store operation failed"@,
        e matches UsageError::AccountNotFound { plugin_id, alias } ==> e.text() == ("account "@
            + plugin_id@ + "/"@ + alias@ + " does not exist"@),
        e matches UsageError::PluginNotFound { plugin_id, path } ==> e.text() == ("plugin "@
            + plugin_id@ + " manifest not found at "@ + path@),
        e matches UsageError::InvalidWindow(window) ==> e.text() == ("invalid usage window "@
            + window@),
        e matches UsageError::InvalidGlobPattern { pattern, message } ==> e.text()
            == ("invalid glob pattern "@ + pattern@ + ": "@ + message@),
        e matches UsageError::ReadFile { path } ==> e.text() == ("failed to read usage input "@
            + path@),
        e matches UsageError::ParseJson { path, message } ==> e.text()
            == ("failed to parse usage json from "@ + path@ + ": "@ + message@),
        e matches UsageError::HttpRequest { url, message } ==> e.text()
            == ("http request failed for "@ + url@ + ": "@ + message@),
        e matches UsageError::WriteCache { path } ==> e.text() == ("failed to write cache file "@
            + path@),
        e matches UsageError::CreateDirectory { path } ==> e.text()
            == ("failed to create cache directory "@ + path@),
        e matches UsageError::RemovePath { path } ==> e.text() == ("failed to remove cache path "@
            + path@),
{
}

} // verus!
