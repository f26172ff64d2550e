use aswitch::account::{
    account_name, asks_for_plan, check_new_account, current_accounts, finish_add_account,
    list_accounts, remove_account, rename_account, status, AccountError, PlanLookup,
};
use aswitch::identity::{extract_with_home_dir, Identity};
use aswitch::paths::{expand_user_path, lock_step, AswitchPaths, LockAttempt, LockStep, PathsError};
use aswitch::plugin::catalog::{parse_manifest, LoadedManifest, PluginCatalog};
use aswitch::plugin::{
    AuxFile, AuxFileKind, CredentialStore, CredentialStoreKind, IdentityExtract, IdentitySource,
    LoginConfig, Manifest, Platform, ReadyMarkerKind,
};
use aswitch::registry::{corrupted_backup_path, AccountMetadata, Registry, RegistryRead};
use aswitch::switch::{account_dir, aux_backup_path, aux_targets, primary_credentials_path, PathState};
use aswitch::text_map::{Duplicate, TextMap};
use aswitch::time::Timestamp;

fn moment(secs: i64) -> Timestamp {
    Timestamp { secs, nanos: 0 }
}

fn value_rule(field: &str, pointer: &str) -> IdentityExtract {
    IdentityExtract {
        field: field.to_string(),
        source: IdentitySource::JsonValue,
        json_file_path: None,
        json_pointer: Some(pointer.to_string()),
        fallback_source: None,
        fallback_json_file_path: None,
        fallback_json_pointer: None,
        jwt_from: None,
        jwt_json_pointer: None,
        claim_pointer: None,
        fallback_jwt_from: None,
        fallback_jwt_json_pointer: None,
        fallback_claim_pointer: None,
        json_top_keys_from: None,
        fallback_json_top_keys_from: None,
        literal: None,
        fallback_literal: None,
    }
}

fn manifest() -> Manifest {
    Manifest {
        id: "demo".to_string(),
        display_name: "Demo".to_string(),
        version: "1.0.0".to_string(),
        author: "tests".to_string(),
        description: "account tests".to_string(),
        platforms: vec![Platform::Macos, Platform::Linux],
        credential_store: CredentialStore {
            kind: CredentialStoreKind::File,
            path: Some("~/.demo/auth.json".to_string()),
            permissions: Some(384),
            macos_service: None,
            macos_account: None,
            linux_schema: None,
            linux_attributes: TextMap::new(),
            linux_fallback_kind: None,
            linux_fallback_path: None,
            linux_fallback_permissions: None,
            allow_empty_active: false,
        },
        session_activation: None,
        aux_files: vec![AuxFile {
            path: "~/.demo/settings.json".to_string(),
            required: false,
            kind: AuxFileKind::File,
        }],
        identity_extract: vec![value_rule("email", "user.email"), value_rule("plan", "plan")],
        login: LoginConfig {
            cmd: vec!["demo".to_string(), "login".to_string()],
            ready_marker_kind: ReadyMarkerKind::File,
            ready_marker_timeout_s: 1,
            ready_marker_path: Some("~/.demo/auth.json".to_string()),
        },
        usage_source: vec![],
    }
}

fn loaded() -> Vec<LoadedManifest> {
    vec![
        parse_manifest(manifest(), "/c/plugins/demo/plugin.toml", &TextMap::new())
            .ok()
            .expect("manifest"),
    ]
}

fn paths() -> AswitchPaths {
    AswitchPaths::resolve(Some("/c".to_string()), None).ok().expect("paths")
}

fn identity(credential: &str) -> Identity {
    extract_with_home_dir(
        &manifest(),
        credential.as_bytes(),
        "/home/me",
        &TextMap::new(),
    )
    .identity
}

fn add(registry: &mut Registry, alias: &str, credential: &str, at: i64) {
    assert!(check_new_account(registry, "demo", alias, false).is_ok());
    let report = finish_add_account(
        registry,
        "demo",
        alias,
        identity(credential),
        vec![],
        PlanLookup::NotAsked,
        moment(at),
    );
    assert_eq!(report.alias, alias);
}

#[test]
fn add_account_captures_live_state_and_marks_it_active() {
    let credential = r#"{"user":{"email":"amos@example.com"},"plan":"plus"}"#;
    let mut registry = Registry::empty();
    assert!(check_new_account(&registry, "demo", "work", false).is_ok());
    let report = finish_add_account(
        &mut registry,
        "demo",
        "work",
        identity(credential),
        vec!["careful".to_string()],
        PlanLookup::NotAsked,
        moment(10),
    );

    assert_eq!(report.alias, "work");
    assert_eq!(report.identity.email.as_deref(), Some("amos@example.com"));
    assert_eq!(report.identity.plan.as_deref(), Some("plus"));
    assert!(!report.overwritten);
    assert_eq!(report.warnings, vec!["careful"]);

    let metadata = registry.account("demo", "work").expect("metadata");
    assert_eq!(metadata.email.as_deref(), Some("amos@example.com"));
    assert_eq!(registry.active_alias("demo").as_deref(), Some("work"));

    let dir = account_dir(&paths(), "demo", "work");
    assert_eq!(dir, "/c/accounts/demo/work");
    assert_eq!(primary_credentials_path(&dir), "/c/accounts/demo/work/primary.creds");
    let targets = aux_targets(&manifest(), "/home/me");
    assert_eq!(targets[0].active_path, "/home/me/.demo/settings.json");
    assert_eq!(
        aux_backup_path(&dir, &targets[0].backup_relative_path),
        "/c/accounts/demo/work/aux/.demo/settings.json"
    );
}

#[test]
fn list_and_current_reflect_saved_accounts() {
    let mut registry = Registry::empty();
    add(
        &mut registry,
        "personal",
        r#"{"user":{"email":"personal@example.com"},"plan":"free"}"#,
        10,
    );
    add(
        &mut registry,
        "work",
        r#"{"user":{"email":"work@example.com"},"plan":"team"}"#,
        20,
    );

    let accounts = list_accounts(&registry, &None);
    assert_eq!(accounts.len(), 2);
    assert_eq!(accounts[0].alias, "personal");
    assert!(!accounts[0].active);
    assert_eq!(accounts[1].alias, "work");
    assert!(accounts[1].active);
    assert!(list_accounts(&registry, &Some("other".to_string())).is_empty());

    let current = current_accounts(&registry, &loaded(), &None);
    assert_eq!(current.len(), 1);
    assert_eq!(current[0].alias.as_deref(), Some("work"));
    assert_eq!(current[0].email.as_deref(), Some("work@example.com"));
    assert!(current[0].managed);
}

#[test]
fn an_account_is_not_overwritten_by_accident() {
    let mut registry = Registry::empty();
    add(&mut registry, "work", "{}", 10);
    assert!(matches!(
        check_new_account(&registry, "demo", "work", false),
        Err(AccountError::AccountAlreadyExists { .. })
    ));
    assert!(check_new_account(&registry, "demo", "work", true).is_ok());
    let report = finish_add_account(
        &mut registry,
        "demo",
        "work",
        identity(r#"{"plan":"max"}"#),
        vec![],
        PlanLookup::NotAsked,
        moment(20),
    );
    assert!(report.overwritten);
    let metadata = registry.account("demo", "work").expect("metadata");
    assert_eq!(metadata.plan.as_deref(), Some("max"));
}

#[test]
fn rename_account_moves_backup_and_updates_active_alias() {
    let mut registry = Registry::empty();
    add(&mut registry, "work", "{}", 10);

    let plan = rename_account(
        &paths(),
        registry,
        "demo",
        "work",
        "office",
        PathState::Directory,
        PathState::Missing,
    )
    .ok()
    .expect("rename");

    assert!(plan.report.active_updated);
    assert_eq!(
        plan.backup,
        Some((
            "/c/accounts/demo/work".to_string(),
            "/c/accounts/demo/office".to_string()
        ))
    );
    assert_eq!(plan.registry.active_alias("demo").as_deref(), Some("office"));
    assert!(plan.registry.account("demo", "office").is_some());
    assert!(plan.registry.account("demo", "work").is_none());

    // Renaming back restores what there was.
    let back = rename_account(
        &paths(),
        plan.registry,
        "demo",
        "office",
        "work",
        PathState::Directory,
        PathState::Missing,
    )
    .ok()
    .expect("rename");
    assert_eq!(back.registry.active_alias("demo").as_deref(), Some("work"));
    assert_eq!(
        back.registry.account("demo", "work").expect("account").alias,
        "work"
    );
}

#[test]
fn a_rename_that_cannot_be_is_refused() {
    let registry = || {
        let mut registry = Registry::empty();
        add(&mut registry, "work", "{}", 10);
        add(&mut registry, "home", "{}", 20);
        registry
    };
    let rename = |from: &str, to: &str, old, new| {
        rename_account(&paths(), registry(), "demo", from, to, old, new).err()
    };
    assert!(matches!(
        rename("work", "work", PathState::Directory, PathState::Missing),
        Some(AccountError::AliasUnchanged { .. })
    ));
    assert!(matches!(
        rename("none", "new", PathState::Directory, PathState::Missing),
        Some(AccountError::AccountNotFound { .. })
    ));
    assert!(matches!(
        rename("work", "home", PathState::Directory, PathState::Missing),
        Some(AccountError::TargetAliasExists { .. })
    ));
    assert!(matches!(
        rename("work", "new", PathState::File, PathState::Missing),
        Some(AccountError::BackupPathNotDirectory { .. })
    ));
    assert!(rename("work", "new", PathState::Missing, PathState::Missing).is_none());
}

#[test]
fn remove_active_account_requires_force_and_clears_active_pointer() {
    let mut registry = Registry::empty();
    add(&mut registry, "work", "{}", 10);

    let error = remove_account(
        &paths(),
        registry.duplicate(),
        "demo",
        "work",
        false,
        PathState::Directory,
    )
    .err()
    .expect("remove without force should fail");
    assert!(matches!(
        error,
        AccountError::RemoveActiveRequiresForce { .. }
    ));

    let plan = remove_account(&paths(), registry, "demo", "work", true, PathState::Directory)
        .ok()
        .expect("remove with force");
    assert!(plan.report.was_active);
    assert!(plan.report.removed_backup);
    assert_eq!(plan.backup.as_deref(), Some("/c/accounts/demo/work"));
    assert_eq!(plan.plugin_dir, "/c/accounts/demo");

    assert_eq!(plan.registry.active_alias("demo"), None);
    assert!(plan.registry.accounts.get("demo").is_none());
}

#[test]
fn status_includes_loaded_plugin_and_last_switch() {
    let mut registry = Registry::empty();
    add(&mut registry, "work", "{}", 10);

    let catalog = PluginCatalog {
        plugins: loaded(),
        errors: vec![],
        warnings: vec![],
    };
    let status = status(&registry, &catalog);
    assert_eq!(status.registry_version, 1);
    assert!(status.last_switch_at.is_some());
    assert_eq!(status.plugins.len(), 1);
    assert_eq!(status.plugins[0].plugin_id, "demo");
    assert!(status.plugins[0].loaded);
    assert_eq!(status.plugins[0].active_alias.as_deref(), Some("work"));
    assert_eq!(status.plugins[0].account_count, 1);
}

#[test]
fn errors_name_the_account() {
    assert_eq!(account_name("demo", "work"), "demo/work");
    let error = AccountError::AccountNotFound {
        plugin_id: "demo".to_string(),
        alias: "work".to_string(),
    };
    assert!(error.message().contains("demo/work"));
}

// ---------------------------------------------------------------------------------------------
// The registry and the directories
// ---------------------------------------------------------------------------------------------
#[test]
fn save_and_load_round_trip() {
    let mut registry = Registry::default();
    let account = AccountMetadata {
        alias: "work-main".to_string(),
        email: Some("amos@example.com".to_string()),
        org_name: Some("Amos".to_string()),
        plan: Some("team".to_string()),
        added_at: moment(1_777_025_523),
        last_used_at: None,
    };
    registry
        .active
        .insert("acme-code".to_string(), Some("work-main".to_string()));
    let mut accounts = TextMap::new();
    accounts.insert("work-main".to_string(), account);
    registry.accounts.insert("acme-code".to_string(), accounts);

    let step = Registry::save_atomic(&paths(), 7, b"{}".to_vec());
    assert_eq!(step.temp_path, "/c/registry.json.tmp.7");
    assert_eq!(step.contents, b"{}\n");
    assert_eq!(step.path, paths().registry_file);
    let loaded = Registry::load(RegistryRead::Parsed(registry));
    assert!(!loaded.reset);
    let read = loaded.registry.account("acme-code", "work-main").expect("account");
    assert_eq!(read.email.as_deref(), Some("amos@example.com"));
    assert_eq!(read.added_at, moment(1_777_025_523));
    assert_eq!(
        loaded.registry.active_alias("acme-code").as_deref(),
        Some("work-main")
    );
}

#[test]
fn corrupted_registry_is_backed_up_and_reset() {
    let reset = Registry::load(RegistryRead::Corrupt);
    assert!(reset.reset);
    assert_eq!(reset.registry.version, 1);
    assert!(reset.registry.active.is_empty());
    assert!(reset.registry.accounts.is_empty());
    let backup = corrupted_backup_path(&paths(), moment(0)).expect("backup");
    assert!(backup.starts_with("/c/registry.json.bak."));
    assert_eq!(backup, "/c/registry.json.bak.19700101T000000Z");
    assert!(!Registry::load(RegistryRead::Missing).reset);
}

#[test]
fn ensure_creates_expected_directory_layout() {
    let root = "/tmp/x/.aswitch";
    let paths = AswitchPaths::resolve(Some(root.to_string()), None).ok().expect("paths");

    let directories = paths.ensure();
    assert!(directories.contains(&root.to_string()));
    assert!(directories.contains(&paths.plugins_dir));
    assert!(directories.contains(&paths.accounts_dir));
    assert!(directories.contains(&paths.usage_cache_dir));
    assert!(directories.contains(&paths.logs_dir));
    assert_eq!(paths.registry_file, format!("{root}/registry.json"));
    assert_eq!(paths.lock_file, format!("{root}/.lock"));
    assert_eq!(paths.log_file, format!("{root}/logs/aswitch.log"));
    assert_eq!(paths.registry_temp_path(7), format!("{root}/registry.json.tmp.7"));
}

#[test]
fn directories_hold_neither_the_registry_nor_the_lock_nor_the_log() {
    let paths = paths();
    let once = paths.ensure();
    assert_eq!(once.len(), 5);
    for file in [&paths.registry_file, &paths.lock_file, &paths.log_file] {
        for directory in &once {
            assert!(!std::path::Path::new(directory).starts_with(file));
        }
    }
    assert_eq!(paths.ensure(), once);
}

#[test]
fn the_home_directory_is_the_root_where_none_is_given() {
    let paths = AswitchPaths::resolve(None, Some("/home/me".to_string())).ok().expect("paths");
    assert_eq!(paths.root, "/home/me/.aswitch");
    assert!(matches!(
        AswitchPaths::resolve(None, None),
        Err(PathsError::HomeDirectoryUnavailable)
    ));
    assert_eq!(
        expand_user_path("~/x", Some("/home/me".to_string())).ok().as_deref(),
        Some("/home/me/x")
    );
}

#[test]
fn a_lock_is_waited_for_until_it_is_too_late() {
    let paths = paths();
    assert!(matches!(
        lock_step(&paths, LockAttempt::Taken, 0, 5000),
        LockStep::Hold
    ));
    assert!(matches!(
        lock_step(&paths, LockAttempt::Busy, 0, 5000),
        LockStep::Wait { .. }
    ));
    match lock_step(&paths, LockAttempt::Busy, 5000, 5000) {
        LockStep::GiveUp(error) => assert!(error.message().contains("5s")),
        _ => panic!("the end was expected"),
    }
    assert!(matches!(
        lock_step(&paths, LockAttempt::Failed, 0, 5000),
        LockStep::GiveUp(PathsError::LockFile { .. })
    ));
}

#[test]
fn one_service_is_asked_for_the_plan_of_a_new_account() {
    assert!(asks_for_plan("gemini"));
    assert!(!asks_for_plan("codex"));
    assert!(!asks_for_plan("gemini-2"));
}
