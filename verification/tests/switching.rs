use std::path::Path;

use aswitch::cmd::project::project_candidates;
use aswitch::cmd::shell::live_paths;
use aswitch::path::{
    backup_relative_path, components, file_name, join_path, parent, strip_base, temp_sibling_path,
    with_file_name,
};
use aswitch::paths::AswitchPaths;
use aswitch::plugin::{
    AuxFile, AuxFileKind, CredentialStore, CredentialStoreKind, LoginConfig, Manifest, Platform,
    ReadyMarkerKind, SessionActivationConfig,
};
use aswitch::registry::{AccountMetadata, Registry};
use aswitch::session::{
    activation_config, backup_failure, prepare_session_activation, read_backup_content,
    session_env_var, AuxStep, SessionError,
};
use aswitch::switch::{
    apply_content_to_live, begin_switch, load_plugin_manifest, read_primary_backup,
    read_snapshot_content, replace_path_atomically, step_switch, LiveStep, PathState,
    SnapshotContent, SnapshotRead, StoredAccountState, StoredAuxState, Switch, SwitchError,
    SwitchEvent, SwitchFailure, SwitchStage,
};
use aswitch::text_map::TextMap;
use aswitch::time::Timestamp;

fn moment(secs: i64) -> Timestamp {
    Timestamp { secs, nanos: 0 }
}

fn metadata(alias: &str, at: i64) -> AccountMetadata {
    AccountMetadata {
        alias: alias.to_string(),
        email: Some(format!("{alias}@example.com")),
        org_name: None,
        plan: None,
        added_at: moment(at),
        last_used_at: None,
    }
}

fn registry() -> Registry {
    let mut registry = Registry::default();
    registry.active.insert("demo".to_string(), Some("x".to_string()));
    let mut accounts = TextMap::new();
    accounts.insert("x".to_string(), metadata("x", 3));
    accounts.insert("y".to_string(), metadata("y", 4));
    registry.accounts.insert("demo".to_string(), accounts);
    registry
}

fn state(auth: &[u8], settings: &[u8]) -> StoredAccountState {
    StoredAccountState {
        credentials: Some(auth.to_vec()),
        aux: vec![StoredAuxState {
            active_path: "/home/me/.demo/settings.json".to_string(),
            backup_relative_path: backup_relative_path("/home/me/.demo/settings.json", "/home/me"),
            content: SnapshotContent::File(settings.to_vec()),
        }],
    }
}

fn manifest(id: &str, credential: &str) -> Manifest {
    Manifest {
        id: id.to_string(),
        display_name: id.to_string(),
        version: "1.0.0".to_string(),
        author: "tests".to_string(),
        description: "tests".to_string(),
        platforms: vec![Platform::Macos, Platform::Linux],
        credential_store: CredentialStore {
            kind: CredentialStoreKind::File,
            path: Some(credential.to_string()),
            permissions: Some(384),
            macos_service: None,
            macos_account: None,
            linux_schema: None,
            linux_attributes: TextMap::new(),
            linux_fallback_kind: None,
            linux_fallback_path: None,
            linux_fallback_permissions: None,
            allow_empty_active: false,
        },
        session_activation: None,
        aux_files: vec![],
        identity_extract: vec![],
        login: LoginConfig {
            cmd: vec![id.to_string()],
            ready_marker_kind: ReadyMarkerKind::File,
            ready_marker_timeout_s: 1,
            ready_marker_path: Some(credential.to_string()),
        },
        usage_source: vec![],
    }
}

fn paths() -> AswitchPaths {
    AswitchPaths::resolve(Some("/c".to_string()), None).ok().expect("paths")
}

fn up_to_applying() -> Switch {
    let switch = begin_switch(registry(), "demo", "y").ok().expect("switch");
    assert!(matches!(switch.stage, SwitchStage::CaptureLive));
    let switch = step_switch(
        switch,
        SwitchEvent::Captured(state(b"{\"token\":\"x\"}", b"{\"profile\":\"x\"}")),
    );
    assert!(matches!(switch.stage, SwitchStage::SavePrevious));
    let switch = step_switch(switch, SwitchEvent::PreviousSaved);
    assert!(matches!(switch.stage, SwitchStage::ReadTarget));
    let switch = step_switch(
        switch,
        SwitchEvent::TargetRead(state(b"{\"token\":\"y\"}", b"{\"profile\":\"y\"}")),
    );
    assert!(matches!(switch.stage, SwitchStage::ApplyTarget));
    switch
}

#[test]
fn use_account_switches_live_state_and_updates_registry() {
    let switch = up_to_applying();
    assert_eq!(
        switch.target.as_ref().expect("target").credentials,
        Some(b"{\"token\":\"y\"}".to_vec())
    );
    assert_eq!(
        switch.previous_live.as_ref().expect("live").credentials,
        Some(b"{\"token\":\"x\"}".to_vec())
    );
    let switch = step_switch(switch, SwitchEvent::Applied { at: moment(50) });
    assert!(matches!(switch.stage, SwitchStage::SaveRegistry { .. }));
    assert_eq!(switch.registry.active_alias("demo").as_deref(), Some("y"));
    assert!(switch
        .registry
        .account("demo", "y")
        .expect("account")
        .last_used_at
        .is_some());
    let switch = step_switch(switch, SwitchEvent::RegistrySaved);
    match switch.stage {
        SwitchStage::Finished(Ok(report)) => {
            assert_eq!(report.previous_active.as_deref(), Some("x"));
            assert_eq!(report.switched_at, moment(50));
        }
        _ => panic!("the end was expected"),
    }
}

#[test]
fn use_account_rolls_back_after_primary_write_failure() {
    let switch = up_to_applying();
    let switch = step_switch(
        switch,
        SwitchEvent::Failed(SwitchFailure::SimulatedFailureAfterPrimaryWrite),
    );
    assert!(matches!(switch.stage, SwitchStage::RollBack { .. }));
    assert_eq!(
        switch.previous_live.as_ref().expect("live").credentials,
        Some(b"{\"token\":\"x\"}".to_vec())
    );
    let switch = step_switch(switch, SwitchEvent::RolledBack);
    assert_eq!(switch.registry.active_alias("demo").as_deref(), Some("x"));
    match switch.stage {
        SwitchStage::Finished(Err(error)) => {
            assert!(matches!(error, SwitchError::RollbackSucceeded { .. }));
            assert_eq!(error.exit_code(), 10);
        }
        _ => panic!("a failure was expected"),
    }
}

#[test]
fn a_failed_rollback_is_told_with_its_cause() {
    let switch = step_switch(
        up_to_applying(),
        SwitchEvent::Failed(SwitchFailure::WriteFile {
            path: "/a".to_string(),
        }),
    );
    let switch = step_switch(
        switch,
        SwitchEvent::Failed(SwitchFailure::WriteFile {
            path: "/b".to_string(),
        }),
    );
    match switch.stage {
        SwitchStage::Finished(Err(error)) => {
            assert!(matches!(error, SwitchError::RollbackFailed { .. }));
            assert!(error.exit_code() != 10);
            assert!(error.message().contains("/b"));
        }
        _ => panic!("a failure was expected"),
    }
    assert!(matches!(
        begin_switch(registry(), "demo", "z"),
        Err(SwitchFailure::TargetAccountNotFound { .. })
    ));
}

#[test]
fn what_is_found_decides_what_is_read_and_written() {
    assert!(matches!(
        read_snapshot_content("/a", AuxFileKind::File, false, PathState::Missing),
        Ok(SnapshotRead::Nothing)
    ));
    assert!(matches!(
        read_snapshot_content("/a", AuxFileKind::File, true, PathState::Missing),
        Err(SwitchFailure::MissingRequiredPath { .. })
    ));
    assert!(matches!(
        read_snapshot_content("/a", AuxFileKind::File, true, PathState::Directory),
        Err(SwitchFailure::ExpectedFile { .. })
    ));
    assert!(matches!(
        read_snapshot_content("/a", AuxFileKind::Dir, true, PathState::Directory),
        Ok(SnapshotRead::Directory)
    ));
    assert!(matches!(
        apply_content_to_live("/a", &SnapshotContent::Missing, PathState::File),
        Ok(LiveStep::Remove)
    ));
    assert!(matches!(
        apply_content_to_live("/a", &SnapshotContent::File(vec![]), PathState::Missing),
        Ok(LiveStep::WriteFile)
    ));
    assert_eq!(
        read_primary_backup("demo", "x", "/p", PathState::Missing, true).ok(),
        Some(false)
    );
    assert!(matches!(
        read_primary_backup("demo", "x", "/p", PathState::Missing, false),
        Err(SwitchFailure::TargetBackupMissing { .. })
    ));
    assert_eq!(
        load_plugin_manifest(&paths(), "demo", true).ok().as_deref(),
        Some("/c/plugins/demo/plugin.toml")
    );
    assert!(matches!(
        load_plugin_manifest(&paths(), "demo", false),
        Err(SwitchFailure::PluginNotFound { .. })
    ));
    let plan = replace_path_atomically("/a/b", 7, 9).ok().expect("plan");
    assert_eq!(plan.parent, "/a");
    assert!(plan.previous.starts_with("/a/b"));
}

// ---------------------------------------------------------------------------------------------
// Sessions
// ---------------------------------------------------------------------------------------------
#[test]
fn prepares_runtime_home_for_terminal_activation() {
    let mut manifest = manifest("codex", "~/.codex/auth.json");
    manifest.session_activation = Some(SessionActivationConfig {
        env_var: "CODEX_HOME".to_string(),
        default_home: "~/.codex".to_string(),
        shared_paths: vec!["config.toml".to_string(), "skills".to_string()],
    });
    let activation = activation_config(&manifest).expect("activation");
    let plan = prepare_session_activation(
        &paths(),
        "/home/me",
        "codex",
        "work",
        &activation,
        &manifest,
    )
    .ok()
    .expect("prepare");

    assert_eq!(plan.report.env_var, "CODEX_HOME");
    assert_eq!(plan.backup_path, "/c/accounts/codex/work/primary.creds");
    assert_eq!(
        plan.report.runtime_credential_path,
        join_path(&plan.report.runtime_home, "auth.json")
    );
    assert_eq!(plan.links.len(), 2);
    assert_eq!(plan.links[0].source, "/home/me/.codex/config.toml");
    assert_eq!(
        plan.links[0].destination,
        join_path(&plan.report.runtime_home, "config.toml")
    );
}

#[test]
fn reads_session_env_var_from_manifest() {
    let mut manifest = manifest("codex", "~/.codex/auth.json");
    manifest.session_activation = Some(SessionActivationConfig {
        env_var: "CODEX_HOME".to_string(),
        default_home: "~/.codex".to_string(),
        shared_paths: vec![],
    });
    let env_var = session_env_var("codex", &manifest).ok().expect("env var");
    assert_eq!(env_var, "CODEX_HOME");
}

#[test]
fn prepares_runtime_home_with_aux_files_for_terminal_activation() {
    let mut manifest = manifest("gemini", "~/.gemini/oauth_creds.json");
    manifest.session_activation = Some(SessionActivationConfig {
        env_var: "GEMINI_CLI_HOME".to_string(),
        default_home: "~".to_string(),
        shared_paths: vec![],
    });
    for name in ["settings.json", "google_accounts.json"] {
        manifest.aux_files.push(AuxFile {
            path: format!("~/.gemini/{name}"),
            required: false,
            kind: AuxFileKind::File,
        });
    }
    let activation = activation_config(&manifest).expect("activation");
    let plan = prepare_session_activation(
        &paths(),
        "/home/me",
        "gemini",
        "work",
        &activation,
        &manifest,
    )
    .ok()
    .expect("prepare");

    assert_eq!(plan.report.env_var, "GEMINI_CLI_HOME");
    let runtime = plan.report.runtime_home.clone();
    assert_eq!(
        plan.report.runtime_credential_path,
        format!("{runtime}/.gemini/oauth_creds.json")
    );
    match &plan.aux[0] {
        AuxStep::Copy {
            backup_path,
            destination,
            ..
        } => {
            assert_eq!(backup_path, "/c/accounts/gemini/work/aux/.gemini/settings.json");
            assert_eq!(destination, &format!("{runtime}/.gemini/settings.json"));
        }
        AuxStep::Outside { .. } => panic!("a copy was expected"),
    }
    assert_eq!(plan.aux.len(), 2);
}

#[test]
fn a_session_needs_what_it_is_made_of() {
    let plain = manifest("other", "~/.other/auth.json");
    assert!(activation_config(&plain).is_none());
    assert!(matches!(
        session_env_var("other", &plain),
        Err(SessionError::ActivationNotSupported { .. })
    ));
    let mut outside = manifest("codex", "/etc/auth.json");
    outside.session_activation = Some(SessionActivationConfig {
        env_var: "CODEX_HOME".to_string(),
        default_home: "~/.codex".to_string(),
        shared_paths: vec![],
    });
    let activation = activation_config(&outside).expect("activation");
    assert!(matches!(
        prepare_session_activation(
            &paths(),
            "/home/me",
            "codex",
            "work",
            &activation,
            &outside
        ),
        Err(SessionError::CredentialPathOutsideDefaultHome { .. })
    ));
    assert!(matches!(
        backup_failure("codex", "work", "/p", true),
        SessionError::AccountBackupMissing { .. }
    ));
    assert!(matches!(
        backup_failure("codex", "work", "/p", false),
        SessionError::ReadFile { .. }
    ));
    assert!(matches!(
        read_backup_content("codex", "work", "/p", AuxFileKind::File, false, PathState::Missing),
        Ok(SnapshotRead::Nothing)
    ));
    assert!(read_backup_content(
        "codex",
        "work",
        "/p",
        AuxFileKind::File,
        true,
        PathState::Missing
    )
    .is_err());
}

// ---------------------------------------------------------------------------------------------
// Paths
// ---------------------------------------------------------------------------------------------
#[test]
fn paths_are_joined_and_taken_apart() {
    assert_eq!(join_path("/a", "b/c"), "/a/b/c");
    assert_eq!(join_path("/a/", "b"), "/a/b");
    assert_eq!(join_path("/a", "/b"), "/b");
    assert_eq!(file_name("/a/b.txt").as_deref(), Some("b.txt"));
    assert_eq!(file_name("/"), None);
    assert_eq!(parent("/a/b").as_deref(), Some("/a"));
    assert_eq!(with_file_name("/a/b", "c"), "/a/c");
    assert_eq!(strip_base("/a/b/c", "/a").as_deref(), Some("b/c"));
    assert_eq!(strip_base("/ab/c", "/a"), None);
    assert_eq!(components("/a//b/./c"), vec!["/", "a", "b", "c"]);
    assert_eq!(backup_relative_path("/home/me/.demo/x", "/home/me"), ".demo/x");
    assert_eq!(temp_sibling_path("/a/b", "new", 1, 2), "/a/b.new.1.2");
    let live = live_paths(&manifest("demo", "~/.demo/auth.json"), "/home/me");
    assert!(live.is_empty() || live.iter().all(|path| path.starts_with("/home/me/")));
}

/// All texts of up to so many characters that a path can trip over.
fn path_texts(longest: usize) -> Vec<String> {
    let mut texts = vec![String::new()];
    let mut newest = texts.clone();
    for _ in 0..longest {
        newest = newest
            .iter()
            .flat_map(|text| ['/', '.', 'a'].map(|c| format!("{text}{c}")))
            .collect();
        texts.extend(newest.iter().cloned());
    }
    texts
}

fn written(path: &Path) -> String {
    path.to_str().expect("text").to_string()
}

#[test]
fn paths_are_written_as_std_writes_them() {
    for text in path_texts(7) {
        let path = Path::new(&text);
        assert_eq!(parent(&text), path.parent().map(written), "parent of {text}");
        assert_eq!(
            file_name(&text),
            path.file_name().map(|name| written(Path::new(name))),
            "name of {text}"
        );
        assert_eq!(
            with_file_name(&text, "b"),
            written(&path.with_file_name("b")),
            "{text} with another name"
        );
        assert_eq!(join_path(&text, "b"), written(&path.join("b")), "below {text}");
        assert_eq!(
            components(&text),
            path.components()
                .map(|part| written(part.as_ref()))
                .collect::<Vec<_>>(),
            "components of {text}"
        );
    }
    for text in path_texts(6) {
        for base in path_texts(4) {
            assert_eq!(
                strip_base(&text, &base),
                Path::new(&text).strip_prefix(&base).ok().map(written),
                "{text} from {base}"
            );
        }
    }
}

#[test]
fn a_path_keeps_its_text() {
    assert_eq!(parent("/a//b/./c").as_deref(), Some("/a//b"));
    assert_eq!(strip_base("/h//x/./y//z/", "/h").as_deref(), Some("x/./y//z"));
    assert_eq!(with_file_name("/a//b", "c"), "/a/c");
    assert_eq!(with_file_name("/a/./b/c", "d"), "/a/./b/d");
    assert_eq!(parent("."), Some(String::new()));
    assert_eq!(parent("/"), None);
    assert_eq!(parent(""), None);
    assert_eq!(
        project_candidates("/a//b"),
        vec!["/a//b/.aswitch.toml", "/a/.aswitch.toml", "/.aswitch.toml"]
    );
}
