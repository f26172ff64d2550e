use aswitch::cmd::pick::{prompt_for_plugin_from_catalog, PluginPick};
use aswitch::cmd::plugins::{install, plugin_file, print_catalog, validate};
use aswitch::paths::AswitchPaths;
use aswitch::plugin::catalog::{
    load_all, parse_manifest, LoadedManifest, PluginEntry, PluginSource,
};
use aswitch::plugin::expand::expand_env_placeholders;
use aswitch::plugin::{
    AuxFile, AuxFileKind, CredentialStore, CredentialStoreKind, IdentityExtract, IdentitySource,
    LoginConfig, Manifest, Platform, ReadyMarkerKind, UsageFormat, UsageSource, UsageSourceKind,
};
use aswitch::text_map::TextMap;

fn manifest(id: &str, version: &str, platform: Platform) -> Manifest {
    Manifest {
        id: id.to_string(),
        display_name: id.to_string(),
        version: version.to_string(),
        author: "test".to_string(),
        description: id.to_string(),
        platforms: vec![platform],
        credential_store: CredentialStore {
            kind: CredentialStoreKind::File,
            path: Some(format!("~/.{id}/auth.json")),
            permissions: Some(384),
            macos_service: None,
            macos_account: None,
            linux_schema: None,
            linux_attributes: TextMap::new(),
            linux_fallback_kind: None,
            linux_fallback_path: None,
            linux_fallback_permissions: None,
            allow_empty_active: false,
        },
        session_activation: None,
        aux_files: vec![],
        identity_extract: vec![],
        login: LoginConfig {
            cmd: vec![id.to_string(), "login".to_string()],
            ready_marker_kind: ReadyMarkerKind::File,
            ready_marker_timeout_s: 30,
            ready_marker_path: Some(format!("~/.{id}/auth.json")),
        },
        usage_source: vec![],
    }
}

fn source() -> UsageSource {
    UsageSource {
        kind: UsageSourceKind::LocalLog,
        method: None,
        url: None,
        headers: TextMap::new(),
        response_metric_pointer: TextMap::new(),
        response_quota_pointer: TextMap::new(),
        cache_ttl_s: None,
        path: Some("~/logs/*.jsonl".to_string()),
        format: Some(UsageFormat::Jsonl),
        timestamp_pointer: None,
        record_filter: None,
        metric_map: TextMap::new(),
        default_window: None,
    }
}

fn loaded(id: &str, version: &str, platform: Platform) -> LoadedManifest {
    parse_manifest(
        manifest(id, version, platform),
        &format!("/plugins/{id}/plugin.toml"),
        &TextMap::new(),
    )
    .ok()
    .expect("manifest")
}

#[test]
fn env_expansion_supports_defaults_and_missing_values() {
    let mut env = TextMap::new();
    env.insert("SET".to_string(), "value".to_string());
    let mut warnings = Vec::new();
    let expanded = expand_env_placeholders(
        "${env:SET:-fallback}-${env:MISSING:-fallback}-${env:EMPTY}",
        &env,
        &mut warnings,
    );

    assert_eq!(expanded, "value-fallback-");
    assert_eq!(warnings.len(), 1);
}

#[test]
fn text_without_placeholders_stays_as_it_is() {
    let mut warnings = Vec::new();
    let env = TextMap::new();
    assert_eq!(expand_env_placeholders("a $b {c}", &env, &mut warnings), "a $b {c}");
    assert_eq!(expand_env_placeholders("${env:X", &env, &mut warnings), "${env:X");
    assert!(warnings.is_empty());
}

#[test]
fn manifest_validation_rejects_missing_required_fields() {
    let mut broken = manifest("broken", "1.0.0", Platform::Macos);
    broken.credential_store.path = None;
    broken.credential_store.permissions = None;
    let error = parse_manifest(broken, "/tmp/broken/plugin.toml", &TextMap::new())
        .err()
        .expect("manifest should fail");

    assert!(error
        .message()
        .contains("credential_store.path is required"));
}

#[test]
fn a_manifest_is_held_to_each_of_its_parts() {
    let problem = |change: &dyn Fn(&mut Manifest)| {
        let mut manifest = manifest("demo", "1.0.0", Platform::Linux);
        change(&mut manifest);
        manifest.validate().err().map(|error| error.0)
    };
    assert_eq!(problem(&|_| {}), None);
    assert!(problem(&|m| m.id = " ".to_string()).expect("problem").contains("id"));
    assert!(problem(&|m| m.platforms.clear()).is_some());
    assert!(problem(&|m| m.credential_store.permissions = None)
        .expect("problem")
        .contains("credential_store.permissions"));
    assert!(problem(&|m| m.login.cmd.clear()).expect("problem").contains("login.cmd"));
    assert!(problem(&|m| m.login.ready_marker_path = None)
        .expect("problem")
        .contains("ready_marker_path"));
    assert!(problem(&|m| m.aux_files.push(AuxFile {
        path: String::new(),
        required: false,
        kind: AuxFileKind::File,
    }))
    .expect("problem")
    .contains("aux_files[0]"));
    assert!(problem(&|m| m.credential_store.kind = CredentialStoreKind::Keychain).is_some());
    assert!(problem(&|m| {
        let mut source = source();
        source.path = None;
        m.usage_source.push(source);
    })
    .expect("problem")
    .contains("usage_source[0]"));
    assert!(problem(&|m| m.identity_extract.push(IdentityExtract {
        field: "email".to_string(),
        source: IdentitySource::JsonFile,
        json_file_path: None,
        json_pointer: Some("email".to_string()),
        fallback_source: None,
        fallback_json_file_path: None,
        fallback_json_pointer: None,
        jwt_from: None,
        jwt_json_pointer: None,
        claim_pointer: None,
        fallback_jwt_from: None,
        fallback_jwt_json_pointer: None,
        fallback_claim_pointer: None,
        json_top_keys_from: None,
        fallback_json_top_keys_from: None,
        literal: None,
        fallback_literal: None,
    }))
    .expect("problem")
    .contains("identity_extract[0]"));
}

#[test]
fn a_manifest_is_expanded_with_the_environment() {
    let mut given = manifest("demo", "1.0.0", Platform::Linux);
    given.credential_store.path = Some("${env:DEMO_HOME}/auth.json".to_string());
    let mut env = TextMap::new();
    env.insert("DEMO_HOME".to_string(), "/demo".to_string());
    let read = parse_manifest(given, "/p/plugin.toml", &env).ok().expect("manifest");
    assert_eq!(
        read.manifest.credential_store.path.as_deref(),
        Some("/demo/auth.json")
    );
    assert!(read.warnings.is_empty());
}

#[test]
fn load_all_skips_unsupported_platforms_and_overrides_duplicates() {
    let current = Platform::current("linux").expect("platform");
    let entry = |name: &str, id: &str, version: &str, platform| PluginEntry {
        name: name.to_string(),
        path: format!("/plugins/{name}/plugin.toml"),
        outcome: Ok(loaded(id, version, platform)),
    };
    let catalog = load_all(
        vec![
            entry("first", "duplicate", "1.0.0", current),
            entry("second", "duplicate", "2.0.0", current),
            entry("linux-only", "linux-only", "1.0.0", Platform::Macos),
        ],
        "linux",
    );

    assert_eq!(catalog.plugins.len(), 1);
    assert_eq!(catalog.plugins[0].manifest.version, "2.0.0");
    assert_eq!(catalog.errors.len(), 0);
    assert_eq!(catalog.warnings.len(), 1);
}

#[test]
fn a_catalog_is_in_the_order_of_its_ids() {
    let entry = |id: &str| PluginEntry {
        name: id.to_string(),
        path: format!("/plugins/{id}/plugin.toml"),
        outcome: Ok(loaded(id, "1.0.0", Platform::Linux)),
    };
    let broken = PluginEntry {
        name: "broken".to_string(),
        path: "/plugins/broken/plugin.toml".to_string(),
        outcome: Err("no".to_string()),
    };
    let catalog = load_all(vec![entry("b"), broken, entry("a")], "linux");
    let ids: Vec<&str> = catalog.plugins.iter().map(|p| p.manifest.id.as_str()).collect();
    assert_eq!(ids, vec!["a", "b"]);
    assert_eq!(catalog.errors.len(), 1);
    assert_eq!(catalog.errors[0].error, "no");
    let lines = print_catalog(&catalog);
    assert!(lines.iter().any(|line| line.contains("a")));

    match prompt_for_plugin_from_catalog(&catalog.plugins).ok().expect("pick") {
        PluginPick::Ask { question, keys } => {
            assert_eq!(question.lines[1], "  1. a (a)");
            assert_eq!(keys[1], vec!["b".to_string(), "b".to_string()]);
        }
        PluginPick::Only { .. } => panic!("a question was expected"),
    }
    assert!(prompt_for_plugin_from_catalog(&vec![]).is_err());
    assert!(matches!(
        prompt_for_plugin_from_catalog(&vec![loaded("a", "1.0.0", Platform::Linux)]),
        Ok(PluginPick::Only { line, .. }) if line == "plugin: a"
    ));
}

#[test]
fn a_plugin_is_installed_under_its_id() {
    let paths = AswitchPaths::resolve(Some("/root/.aswitch".to_string()), None)
        .ok()
        .expect("paths");
    let manifest = loaded("demo", "1.0.0", Platform::Linux);
    assert!(matches!(manifest.source, PluginSource::User));
    assert_eq!(
        plugin_file(&paths, "demo"),
        "/root/.aswitch/plugins/demo/plugin.toml"
    );
    let plan = install(&paths, &manifest, false, false).ok().expect("plan");
    assert_eq!(plan.plugin_dir, "/root/.aswitch/plugins/demo");
    assert_eq!(plan.destination, "/root/.aswitch/plugins/demo/plugin.toml");
    assert!(install(&paths, &manifest, true, false).is_err());
    assert!(install(&paths, &manifest, true, true).is_ok());
    assert!(validate(&manifest).contains("demo"));
}
