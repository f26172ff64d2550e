use aswitch::account::{current_accounts, AccountRecord};
use aswitch::cmd::accounts::{
    add, enumerate_accounts, list, parse_plugin_alias, resolve_selector, use_account, use_found,
    AddArgs, ListArgs, ListView, ResolvedAccount, UseAction, UseArgs, UsePlan, UseScope,
};
use aswitch::cmd::init;
use aswitch::cmd::login::{
    login_command, login_failure, login_step, merge_login_alias, parse_login_target,
    ready_marker, ready_marker_is_present, resolve_login_target, LoginArgs, LoginStep,
    ReadyMarker,
};
use aswitch::cmd::pick::discover_config_dir;
use aswitch::cmd::project::{
    bind_account, clear_project, clear_report, filter_project_binding, find_project_file,
    project_candidates, project_file_for_write, show_project, use_report, ClearStep,
    ProjectBinding, ProjectConfig,
};
use aswitch::cmd::prompt::{
    ensure_interactive_terminal, is_cancel_input, option_reply, prompt_confirmation,
    prompt_option, prompt_required_value, OptionReply, ValueReply,
};
use aswitch::cmd::scope::{
    effective_accounts, effective_targets, read_state_env, serialize_state, ScopeSource,
};
use aswitch::cmd::session::{
    build_activation_output, build_deactivation_output, export_var, shell_quote, unset_var,
};
use aswitch::cmd::shell::{
    clear_global, clear_local, global_clear_line, global_plugins, plan_sync, sync_lines, use_local,
};
use aswitch::plugin::{
    CredentialStore, CredentialStoreKind, LoginConfig, Manifest, Platform, ReadyMarkerKind,
};
use aswitch::registry::{AccountMetadata, Registry};
use aswitch::session::SessionActivationReport;
use aswitch::store::ResolvedCredentialStore;
use aswitch::text_map::TextMap;
use aswitch::time::Timestamp;

fn moment() -> Timestamp {
    Timestamp { secs: 0, nanos: 0 }
}

fn account(plugin_id: &str, alias: &str, active: bool) -> AccountRecord {
    AccountRecord {
        plugin_id: plugin_id.to_string(),
        alias: alias.to_string(),
        email: Some(format!("{alias}@example.com")),
        org_name: None,
        plan: None,
        added_at: moment(),
        last_used_at: None,
        active,
    }
}

fn map(entries: &[(&str, &str)]) -> TextMap<String> {
    let mut map = TextMap::new();
    for (key, value) in entries {
        map.insert(key.to_string(), value.to_string());
    }
    map
}

fn file_manifest(marker: &str) -> Manifest {
    Manifest {
        id: "demo".to_string(),
        display_name: "Demo".to_string(),
        version: "1.0.0".to_string(),
        author: "tests".to_string(),
        description: "login tests".to_string(),
        platforms: vec![Platform::Macos, Platform::Linux],
        credential_store: CredentialStore {
            kind: CredentialStoreKind::File,
            path: Some("~/.demo/auth.json".to_string()),
            permissions: Some(0o600),
            macos_service: None,
            macos_account: None,
            linux_schema: None,
            linux_attributes: TextMap::new(),
            linux_fallback_kind: None,
            linux_fallback_path: None,
            linux_fallback_permissions: None,
            allow_empty_active: false,
        },
        session_activation: None,
        aux_files: vec![],
        identity_extract: vec![],
        login: LoginConfig {
            cmd: vec!["demo".to_string(), "login".to_string()],
            ready_marker_kind: ReadyMarkerKind::File,
            ready_marker_timeout_s: 10,
            ready_marker_path: Some(marker.to_string()),
        },
        usage_source: vec![],
    }
}

// ---------------------------------------------------------------------------------------------
// Logging in
// ---------------------------------------------------------------------------------------------
#[test]
fn file_ready_marker_detects_existing_file() {
    let manifest = file_manifest("/tmp/demo/ready.txt");
    let marker = ready_marker(&manifest, "linux", Some("/home/me".to_string()))
        .ok().expect("ready marker");
    assert!(matches!(&marker, ReadyMarker::File(path) if path == "/tmp/demo/ready.txt"));
    assert!(ready_marker_is_present(&marker, true));
}

#[test]
fn file_ready_marker_detects_missing_file() {
    let manifest = file_manifest("/tmp/demo/missing.txt");
    let marker = ready_marker(&manifest, "linux", Some("/home/me".to_string()))
        .ok().expect("ready marker");
    assert!(!ready_marker_is_present(&marker, false));
}

#[test]
fn a_keychain_marker_is_the_credential_itself() {
    let mut manifest = file_manifest("unused");
    manifest.login.ready_marker_kind = ReadyMarkerKind::Keychain;
    let marker = ready_marker(&manifest, "linux", Some("/home/me".to_string()))
        .ok()
        .expect("ready marker");
    match marker {
        ReadyMarker::Store(ResolvedCredentialStore::File(store)) => {
            assert_eq!(store.path(), "/home/me/.demo/auth.json")
        }
        _ => panic!("a file store was expected"),
    }
}

#[test]
fn parse_login_target_supports_plugin_alias() {
    let parsed = parse_login_target(Some("codex/work"))
        .ok()
        .expect("parse target")
        .expect("parsed value");

    assert_eq!(parsed.0, "codex");
    assert_eq!(parsed.1.as_deref(), Some("work"));
}

#[test]
fn a_login_target_may_be_a_plugin_alone() {
    let parsed = parse_login_target(Some("codex")).ok().expect("parse").expect("value");
    assert_eq!(parsed.0, "codex");
    assert!(parsed.1.is_none());
    assert!(parse_login_target(None).ok().expect("parse").is_none());
    assert!(parse_login_target(Some("codex/")).is_err());
    assert!(parse_login_target(Some("/work")).is_err());
}

#[test]
fn merge_login_alias_rejects_conflicts() {
    let error = merge_login_alias(Some("work".to_string()), Some("personal"))
        .err()
        .expect("should reject conflicting aliases");

    assert!(error.message.contains("--as"));
    assert_eq!(
        merge_login_alias(Some("work".to_string()), Some("work")).ok().expect("alias").as_deref(),
        Some("work")
    );
    assert_eq!(
        merge_login_alias(None, Some("work")).ok().expect("alias").as_deref(),
        Some("work")
    );
}

#[test]
fn a_login_is_planned_from_its_arguments() {
    let plan = resolve_login_target(&LoginArgs {
        target: Some("codex".to_string()),
        alias: Some("work".to_string()),
        force: false,
        json: false,
    })
    .ok()
    .expect("plan");
    assert_eq!(plan.plugin_id.as_deref(), Some("codex"));
    assert_eq!(plan.alias.as_deref(), Some("work"));

    let (program, args) = login_command(&file_manifest("x").login).ok().expect("command");
    assert_eq!(program, "demo");
    assert_eq!(args, vec!["login".to_string()]);
    let mut empty = file_manifest("x").login;
    empty.cmd.clear();
    assert!(login_command(&empty).is_err());
}

#[test]
fn a_login_ends_when_it_is_ready_or_too_late() {
    assert!(matches!(login_step(false, None, false), LoginStep::Sleep));
    assert!(matches!(login_step(false, None, true), LoginStep::TimedOut));
    assert!(matches!(login_step(false, Some(false), false), LoginStep::Failed));
    assert!(!matches!(login_step(true, None, false), LoginStep::Sleep));
    assert!(login_failure(LoginStep::TimedOut, "demo", 10, "")
        .expect("failure")
        .contains("10"));
    assert!(login_failure(LoginStep::Sleep, "demo", 10, "").is_none());
}

// ---------------------------------------------------------------------------------------------
// Accounts
// ---------------------------------------------------------------------------------------------
fn metadata(alias: &str) -> AccountMetadata {
    AccountMetadata {
        alias: alias.to_string(),
        email: None,
        org_name: None,
        plan: None,
        added_at: moment(),
        last_used_at: None,
    }
}

fn registry(accounts: &[(&str, &[&str])]) -> Registry {
    let mut registry = Registry::empty();
    for (plugin_id, aliases) in accounts {
        let mut saved = TextMap::new();
        for alias in *aliases {
            saved.insert(alias.to_string(), metadata(alias));
        }
        registry.accounts.insert(plugin_id.to_string(), saved);
    }
    registry
}

#[test]
fn a_selector_is_a_row_a_full_name_or_an_alias() {
    let registry = registry(&[("codex", &["work"]), ("gemini", &["home", "work"])]);
    let find = |selector: &str, hint: Option<&str>| {
        resolve_selector(&registry, selector, &hint.map(str::to_string))
            .map(|found| format!("{}/{}", found.plugin_id, found.alias))
            .map_err(|error| error.message)
    };
    assert_eq!(find("2", None).as_deref(), Ok("gemini/home"));
    assert_eq!(find("2", Some("gemini")).as_deref(), Ok("gemini/work"));
    assert_eq!(find("codex/work", None).as_deref(), Ok("codex/work"));
    assert_eq!(find("codex/other", None).as_deref(), Ok("codex/other"));
    assert_eq!(find("home", None).as_deref(), Ok("gemini/home"));
    assert_eq!(find("work", Some("gemini")).as_deref(), Ok("gemini/work"));
    assert_eq!(find("0", None), Err("Row numbers start at 1".to_string()));
    assert_eq!(find("9", None), Err("Row 9 does not exist".to_string()));
    assert_eq!(
        find("other", None),
        Err("Account other does not exist".to_string())
    );
    assert_eq!(
        find("work", None),
        Err(
            "Alias work exists under multiple plugins; use <plugin>/<alias>".to_string()
        )
    );
    assert_eq!(
        find("codex/work", Some("gemini")),
        Err(
            "Conflicting arguments: the positional plugin does not match --plugin".to_string()
        )
    );

    let accounts = vec![
        account("codex", "work", true),
        account("gemini", "home", false),
        account("gemini", "work", false),
    ];
    let rows = enumerate_accounts(&accounts);
    assert_eq!(rows.len(), 3);
    assert_eq!(rows[2].row, 3);
    assert_eq!(
        parse_plugin_alias("a/b"),
        Some(("a".to_string(), "b".to_string()))
    );
    assert_eq!(parse_plugin_alias("ab"), None);
}

#[test]
fn saving_is_planned_from_its_arguments() {
    let args = |target: Option<&str>, plugin: Option<&str>, json| AddArgs {
        target: target.map(str::to_string),
        plugin: plugin.map(str::to_string),
        force: false,
        json,
    };
    let plan = add(&args(Some("codex/work"), None, true)).ok().expect("plan");
    assert_eq!(plan.plugin_id.as_deref(), Some("codex"));
    assert_eq!(plan.alias.as_deref(), Some("work"));
    let plan = add(&args(Some("work"), None, false)).ok().expect("plan");
    assert_eq!(plan.plugin_id, None);
    assert_eq!(plan.alias.as_deref(), Some("work"));
    assert!(add(&args(None, None, true))
        .err()
        .expect("refusal")
        .message
        .contains("--json"));
    assert!(add(&args(Some("codex/work"), Some("gemini"), false))
        .err()
        .expect("refusal")
        .message
        .contains("does not match --plugin"));
}

#[test]
fn switching_is_planned_from_its_arguments() {
    let args = |selector: Option<&str>, scope, off| UseArgs {
        selector: selector.map(str::to_string),
        plugin: None,
        scope,
        off,
        json: false,
    };
    assert!(matches!(
        use_account(&args(Some("work"), UseScope::Global, false)),
        Ok(UsePlan::Find { selector: Some(_) })
    ));
    assert!(matches!(
        use_account(&args(None, UseScope::Project, true)),
        Ok(UsePlan::ClearProject { plugin: None })
    ));
    assert!(matches!(
        use_account(&args(None, UseScope::Global, true)),
        Ok(UsePlan::ClearGlobal { plugin: None })
    ));
    assert!(use_account(&args(None, UseScope::Shell, true)).is_err());

    let found = || {
        Some(ResolvedAccount {
            plugin_id: "codex".to_string(),
            alias: "work".to_string(),
        })
    };
    assert!(matches!(
        use_found(UseScope::Project, found()),
        Ok(UseAction::BindProject { selector }) if selector == "codex/work"
    ));
    assert!(matches!(
        use_found(UseScope::Global, found()),
        Ok(UseAction::SwitchGlobal(_))
    ));
    assert!(use_found(UseScope::Shell, found()).is_err());
    assert!(matches!(
        use_found(UseScope::Global, None),
        Ok(UseAction::Cancelled)
    ));

    assert!(matches!(
        list(&ListArgs {
            view: ListView::Saved,
            plugin: None,
            explain: false,
            json: false
        }),
        Ok(ListView::Saved)
    ));
}

// ---------------------------------------------------------------------------------------------
// Projects
// ---------------------------------------------------------------------------------------------
#[test]
fn finds_nearest_project_file() {
    let root = "/tmp/repo";
    let nested = "/tmp/repo/a/b/c";
    let candidates = project_candidates(nested);
    assert_eq!(candidates[0], "/tmp/repo/a/b/c/.aswitch.toml");
    assert_eq!(candidates[3], format!("{root}/.aswitch.toml"));

    let found = find_project_file(nested, &vec![format!("{root}/.aswitch.toml")])
        .expect("project file");
    assert_eq!(found, format!("{root}/.aswitch.toml"));
    let nearer = find_project_file(
        nested,
        &vec![
            format!("{root}/.aswitch.toml"),
            format!("{root}/a/.aswitch.toml"),
        ],
    );
    assert_eq!(nearer, Some(format!("{root}/a/.aswitch.toml")));
    assert_eq!(find_project_file(nested, &vec![]), None);
    assert_eq!(project_file_for_write("/tmp/x", &None), "/tmp/x/.aswitch.toml");
}

#[test]
fn loads_project_accounts() {
    let config = bind_account(None, "codex", "work");
    assert_eq!(config.version, 1);
    let binding = ProjectBinding {
        path: "/tmp/.aswitch.toml".to_string(),
        accounts: config.accounts,
    };
    assert_eq!(
        binding.accounts.get("codex").map(String::as_str),
        Some("work")
    );
    let lines = show_project(&Some(binding));
    assert!(lines.iter().any(|line| line.contains("codex")));
}

#[test]
fn clearing_a_project_removes_the_last_binding_with_its_file() {
    let config = |entries: &[(&str, &str)]| ProjectConfig {
        version: 1,
        accounts: map(entries),
    };
    let plugin = Some("codex".to_string());
    let clear = |accounts: &[(&str, &str)], plugin: &Option<String>| {
        clear_project(Some(("/p".to_string(), config(accounts))), plugin).map(|plan| {
            assert_eq!(plan.path, "/p");
            plan.step
        })
    };
    assert!(matches!(
        clear(&[("codex", "work")], &plugin),
        Ok(ClearStep::RemoveFile)
    ));
    match clear(&[("codex", "work"), ("gemini", "home")], &plugin) {
        Ok(ClearStep::Write(rest)) => {
            assert!(rest.accounts.get("codex").is_none());
            assert!(rest.accounts.contains_key("gemini"));
        }
        _ => panic!("the rest was expected"),
    }
    assert!(matches!(
        clear(&[("codex", "work")], &None),
        Ok(ClearStep::RemoveFile)
    ));
    assert_eq!(
        clear(&[("gemini", "home")], &plugin).err().map(|error| error.message),
        Some("Plugin codex is not bound in /p".to_string())
    );
    // The nearest file is the one that is looked at.
    let nearest = find_project_file(
        "/a/b",
        &vec!["/.aswitch.toml".to_string(), "/a/.aswitch.toml".to_string()],
    )
    .expect("file");
    assert_eq!(nearest, "/a/.aswitch.toml");
    let plan = clear_project(Some((nearest, config(&[("codex", "work")]))), &None).ok();
    assert_eq!(plan.map(|plan| plan.path).as_deref(), Some("/a/.aswitch.toml"));
    assert_eq!(find_project_file("/a/b", &vec!["/c/.aswitch.toml".to_string()]), None);
    for plugin in [&plugin, &None] {
        assert_eq!(
            clear_project(None, plugin).err().map(|error| error.message),
            Some("No project binding was found in the current directory tree".to_string())
        );
    }
    assert!(use_report("/p", "codex", "work").contains("codex"));
    assert!(clear_report("/p", &plugin).contains("codex"));
    let kept = filter_project_binding(
        Some(ProjectBinding {
            path: "/p".to_string(),
            accounts: map(&[("codex", "work"), ("gemini", "home")]),
        }),
        Some("gemini"),
    )
    .expect("binding");
    assert_eq!(kept.accounts.len(), 1);
}

// ---------------------------------------------------------------------------------------------
// Shells
// ---------------------------------------------------------------------------------------------
#[test]
fn shell_quote_escapes_single_quotes() {
    assert_eq!(shell_quote(""), "''");
    assert_eq!(shell_quote("/tmp/plain"), "'/tmp/plain'");
    assert_eq!(shell_quote("/tmp/it's"), "'/tmp/it'\"'\"'s'");
}

#[test]
fn variables_are_set_and_unset_in_words_of_the_shell() {
    assert_eq!(export_var("A", "it's"), "export A='it'\"'\"'s'");
    assert_eq!(unset_var("A"), "unset A");
    let report = SessionActivationReport {
        plugin_id: "codex".to_string(),
        alias: "work".to_string(),
        env_var: "CODEX_HOME".to_string(),
        default_home: "/home/me/.codex".to_string(),
        runtime_home: "/home/me/.aswitch/runtime".to_string(),
        runtime_credential_path: "/home/me/.aswitch/runtime/auth.json".to_string(),
    };
    assert!(build_activation_output(&report)
        .contains("CODEX_HOME='/home/me/.aswitch/runtime'"));
    assert!(build_deactivation_output("CODEX_HOME").contains("CODEX_HOME"));
}

#[test]
fn a_state_is_read_back_as_it_was_written() {
    let state = map(&[("codex", "work"), ("gemini", "a \"quoted\" name")]);
    let text = serialize_state(&state);
    assert_eq!(text, r#"{"codex":"work","gemini":"a \"quoted\" name"}"#);
    let read = read_state_env(&Some(text));
    assert_eq!(read.len(), 2);
    assert_eq!(read.get("codex").map(String::as_str), Some("work"));
    assert_eq!(
        read.get("gemini").map(String::as_str),
        Some("a \"quoted\" name")
    );
    assert!(read_state_env(&Some("nonsense".to_string())).is_empty());
    assert!(read_state_env(&None).is_empty());
}

#[test]
fn the_nearest_scope_decides() {
    let accounts = vec![account("codex", "a", true), account("codex", "b", false)];
    let rows = effective_accounts(
        &accounts,
        &vec![],
        &map(&[("codex", "b")]),
        &map(&[("codex", "a"), ("gemini", "x")]),
        &Some("/p/.aswitch.toml".to_string()),
        None,
    );
    assert_eq!(rows.len(), 2);
    assert_eq!(rows[0].plugin_id, "codex");
    assert_eq!(rows[0].alias.as_deref(), Some("b"));
    assert_eq!(rows[0].email.as_deref(), Some("b@example.com"));
    assert!(matches!(rows[0].scope, ScopeSource::Local));
    assert_eq!(rows[1].alias.as_deref(), Some("x"));
    assert!(matches!(rows[1].scope, ScopeSource::Project));
    assert_eq!(
        effective_targets(&rows),
        vec![
            ("codex".to_string(), "b".to_string()),
            ("gemini".to_string(), "x".to_string())
        ]
    );
}

#[test]
fn a_second_sync_has_nothing_to_do() {
    let local = map(&[("codex", "mine")]);
    let current = map(&[("gemini", "old"), ("opencode", "same")]);
    let desired = map(&[("codex", "work"), ("gemini", "new"), ("opencode", "same")]);
    let plan = plan_sync(&local, &current, &desired);
    assert_eq!(
        plan.activate,
        vec![("gemini".to_string(), "new".to_string())]
    );
    let again = plan_sync(&local, &desired, &desired);
    assert!(again.activate.is_empty());
    assert!(again.deactivate.is_empty());
    assert!(!sync_lines(&vec![], &vec![], &None).is_empty());
}

#[test]
fn a_shell_forgets_its_accounts() {
    let account = ResolvedAccount {
        plugin_id: "codex".to_string(),
        alias: "work".to_string(),
    };
    let lines = use_local(map(&[]), &account, "export CODEX_HOME='/x'".to_string());
    assert!(lines.iter().any(|line| line.contains("CODEX_HOME")));
    assert!(lines
        .iter()
        .any(|line| line.contains(r#"{"codex":"work"}"#)));

    let lines = clear_local(
        map(&[("codex", "work")]),
        map(&[]),
        &None,
        &map(&[("codex", "CODEX_HOME")]),
    );
    assert!(lines.iter().any(|line| line.contains("unset CODEX_HOME")));
}

#[test]
fn clearing_globally_forgets_the_active_account() {
    let mut registry = registry(&[("codex", &["work"])]);
    registry
        .active
        .insert("codex".to_string(), Some("work".to_string()));
    let reports = clear_global(&mut registry, &vec!["codex".to_string()]);
    assert_eq!(reports.len(), 1);
    assert_eq!(reports[0].previous_alias.as_deref(), Some("work"));
    assert!(registry.active_alias("codex").is_none());
    assert!(registry.account("codex", "work").is_some());
    assert!(global_clear_line(&reports[0]).contains("codex"));
}

#[test]
fn clearing_globally_without_a_plugin_leaves_none_active() {
    let mut registry = registry(&[("codex", &["work"]), ("gemini", &["home"])]);
    registry
        .active
        .insert("codex".to_string(), Some("work".to_string()));
    registry
        .active
        .insert("gone".to_string(), Some("lost".to_string()));
    registry.active.insert("gemini".to_string(), None);
    let current = current_accounts(&registry, &vec![], &None);
    assert_eq!(current.len(), 3);
    let plugins = global_plugins(&None, &current).ok().expect("plugins");
    assert_eq!(plugins, vec!["codex", "gone"]);
    clear_global(&mut registry, &plugins);
    for plugin in ["codex", "gemini", "gone"] {
        assert!(registry.active_alias(plugin).is_none());
    }
    assert!(registry.account("codex", "work").is_some());
    let current = current_accounts(&registry, &vec![], &None);
    assert!(global_plugins(&None, &current).is_err());
    assert_eq!(
        global_plugins(&Some("x".to_string()), &current).ok(),
        Some(vec!["x".to_string()])
    );
}

#[test]
fn a_script_is_printed_for_a_known_shell() {
    let args = init::InitArgs {
        shell: Some("zsh".to_string()),
    };
    let script = init::run(&args, &None, "/usr/bin/aswitch").ok().expect("script");
    assert!(script.contains("/usr/bin/aswitch"));
    assert!(script.contains("chpwd_functions"));
    let bash = init::InitArgs { shell: None };
    let script = init::run(&bash, &Some("/bin/bash".to_string()), "aswitch")
        .ok()
        .expect("script");
    assert!(script.contains("PROMPT_COMMAND"));
    let fish = init::InitArgs {
        shell: Some("fish".to_string()),
    };
    assert!(init::run(&fish, &None, "aswitch").is_err());
}

// ---------------------------------------------------------------------------------------------
// Questions
// ---------------------------------------------------------------------------------------------
#[test]
fn questions_are_answered_by_number_or_name() {
    let question = prompt_option(
        "Title:",
        "Pick",
        &vec!["first".to_string(), "second".to_string()],
    );
    assert_eq!(question.lines, vec!["Title:", "  1. first", "  2. second"]);
    assert_eq!(question.prompt, "Pick [1-2 or q]: ");
    let keys = vec![vec!["one".to_string()], vec!["two".to_string()]];
    assert!(matches!(
        option_reply(&keys, Some(" 2 ")),
        OptionReply::Chosen(1)
    ));
    assert!(matches!(
        option_reply(&keys, Some("ONE")),
        OptionReply::Chosen(0)
    ));
    assert!(matches!(option_reply(&keys, Some("")), OptionReply::Again));
    assert!(matches!(
        option_reply(&keys, Some("quit")),
        OptionReply::Cancel
    ));
    assert!(matches!(option_reply(&keys, None), OptionReply::Cancel));
    assert!(matches!(
        option_reply(&keys, Some("3")),
        OptionReply::Invalid
    ));
    assert!(is_cancel_input("Exit"));
    assert_eq!(prompt_confirmation(Some("yes")), Some(true));
    assert_eq!(prompt_confirmation(None), Some(false));
    assert!(matches!(
        prompt_required_value(Some(" work ")),
        ValueReply::Value(v) if v == "work"
    ));
    assert!(matches!(prompt_required_value(Some(" ")), ValueReply::Empty));
    assert!(matches!(prompt_required_value(None), ValueReply::Cancel));
    assert!(ensure_interactive_terminal("aswitch save", true, false, true).is_ok());
    assert_eq!(
        ensure_interactive_terminal("aswitch save", false, true, true),
        Err(
            "aswitch save requires an interactive terminal; provide explicit arguments and try again"
                .to_string()
        )
    );
}

#[test]
fn the_configuration_directory_is_found_among_the_arguments() {
    let args = |words: &[&str]| words.iter().map(|w| w.to_string()).collect::<Vec<_>>();
    assert_eq!(
        discover_config_dir(&args(&["aswitch", "--config-dir", "/x"])),
        Some("/x".to_string())
    );
    assert_eq!(
        discover_config_dir(&args(&["aswitch", "ls", "--config-dir=/y"])),
        Some("/y".to_string())
    );
    assert_eq!(discover_config_dir(&args(&["aswitch", "--config-dir"])), None);
    assert_eq!(discover_config_dir(&args(&["--config-dir", "/x"])), None);
}
