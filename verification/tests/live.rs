use aswitch::account::AccountRecord;
use aswitch::claude::Product;
use aswitch::cmd::live::{
    claude_backups, claude_info_from_value, claude_telemetry_email_from_line, current_claude_info,
    enrich_effective_accounts, enrich_saved_accounts, find_alias_in_effect, has_in_effect,
    latest_claude_backup_info, latest_claude_telemetry_email, ClaudeCodeInfo,
};
use aswitch::cmd::probe::{
    apply_live_cache, apply_quota_source, claude_plan_from_credentials, claude_was_asked,
    codex_logs_are_asked, codex_was_asked, find_provider, finish_probe, gemini_was_asked,
    live_cache_is_fresh,
    live_cache_path,
    live_cache_since, mark_snapshot, next_claude_source, take_claude_api, take_claude_source,
    take_codex_api, take_codex_logs, take_current_gemini, take_gemini_outcome, ApiOutcome,
    ClaudeSource, CurrentGemini, GeminiOutcome, Provider, LIVE_CACHE_FRESH_SECS,
};
use aswitch::cmd::scope::{EffectiveAccountRecord, ScopeSource};
use aswitch::gemini::GeminiCodeAssistInfo;
use aswitch::json::Json;
use aswitch::paths::AswitchPaths;
use aswitch::text_map::TextMap;
use aswitch::time::Timestamp;
use aswitch::usage::snapshot::{UsageMetrics, UsageSnapshot};
use aswitch::usage::{UsageSelection, UsageWindow};

fn json(text: &str) -> Json {
    Json::parse(text).ok().expect("json")
}

fn product() -> Product {
    Product {
        word: "acme".to_string(),
        title: "Acme".to_string(),
    }
}

fn snapshot() -> UsageSnapshot {
    UsageSnapshot {
        plugin_id: "acme-code".to_string(),
        alias: "work".to_string(),
        window: UsageWindow::Today,
        source: UsageSelection::Both,
        metrics: UsageMetrics::none(),
        local_metrics: None,
        api_metrics: None,
        quota: TextMap::new(),
        warnings: vec![],
        sources: vec![],
        cached: false,
    }
}

fn quota(key: &str, value: &str) -> TextMap<Json> {
    let mut quota = TextMap::new();
    quota.insert(key.to_string(), json(value));
    quota
}

fn row(plugin_id: &str, alias: Option<&str>) -> EffectiveAccountRecord {
    EffectiveAccountRecord {
        plugin_id: plugin_id.to_string(),
        alias: alias.map(str::to_string),
        email: None,
        org_name: None,
        plan: None,
        scope: ScopeSource::Global,
        detail: None,
    }
}

fn record(plugin_id: &str, alias: &str) -> AccountRecord {
    AccountRecord {
        plugin_id: plugin_id.to_string(),
        alias: alias.to_string(),
        email: None,
        org_name: None,
        plan: None,
        added_at: Timestamp { secs: 0, nanos: 0 },
        last_used_at: None,
        active: false,
    }
}

#[test]
fn claude_backup_payload_extracts_email_and_org() {
    let value = json(
        r#"{"oauthAccount":{"emailAddress":"acme@example.com","organizationName":"Acme Org"}}"#,
    );

    let info = claude_info_from_value(&value);
    assert_eq!(info.email.as_deref(), Some("acme@example.com"));
    assert_eq!(info.org_name.as_deref(), Some("Acme Org"));
}

#[test]
fn claude_telemetry_line_extracts_email() {
    let line = r#"{"event_data":{"client_timestamp":"2026-04-24T00:10:17.557Z","email":"acme@example.com"}}"#;

    let parsed = claude_telemetry_email_from_line(line);
    assert_eq!(
        parsed,
        Some((
            "2026-04-24T00:10:17.557Z".to_string(),
            "acme@example.com".to_string()
        ))
    );
}

#[test]
fn the_latest_backup_and_the_latest_line_count() {
    let names: Vec<String> = [".acme.json.backup.1", "other", ".acme.json.backup.2"]
        .iter()
        .map(|name| name.to_string())
        .collect();
    assert_eq!(
        claude_backups(&product(), &names),
        vec![".acme.json.backup.2", ".acme.json.backup.1"]
    );
    let contents = vec![
        "{".to_string(),
        "{}".to_string(),
        r#"{"oauthAccount":{"emailAddress":"a@example.com"}}"#.to_string(),
        r#"{"oauthAccount":{"emailAddress":"b@example.com"}}"#.to_string(),
    ];
    let info = latest_claude_backup_info(&contents).expect("info");
    assert_eq!(info.email.as_deref(), Some("a@example.com"));

    let line = |time: &str, email: &str| {
        format!(r#"{{"event_data":{{"client_timestamp":"{time}","email":"{email}"}}}}"#)
    };
    let lines = vec![
        line("2026-04-25T00:00:00Z", "new@example.com"),
        line("2026-04-24T00:00:00Z", "old@example.com"),
    ];
    assert_eq!(
        latest_claude_telemetry_email(&lines).as_deref(),
        Some("new@example.com")
    );
    let current = current_claude_info(None, Some("new@example.com".to_string())).expect("info");
    assert_eq!(current.email.as_deref(), Some("new@example.com"));
    assert!(current_claude_info(None, None).is_none());
}

#[test]
fn accounts_are_filled_in_with_what_is_known() {
    let rows = vec![row("acme-code", Some("work")), row("gemini", Some("home"))];
    let info = Some(ClaudeCodeInfo {
        email: Some("me@example.com".to_string()),
        org_name: Some("Org".to_string()),
    });
    let gemini = Some(GeminiCodeAssistInfo {
        project_id: Some("proj".to_string()),
        tier_name: Some("Free".to_string()),
    });
    assert!(has_in_effect(&rows, "acme-code"));
    assert!(!has_in_effect(&rows, "codex"));
    assert_eq!(find_alias_in_effect(&rows, "gemini").as_deref(), Some("home"));
    let filled = enrich_effective_accounts(&product(), &rows, &info, &gemini);
    assert_eq!(filled[0].email.as_deref(), Some("me@example.com"));
    assert_eq!(filled[1].plan.as_deref(), Some("Free"));
    assert_eq!(filled[1].org_name.as_deref(), Some("proj"));

    let mut saved = vec![record("acme-code", "work"), record("acme-code", "home")];
    enrich_saved_accounts(&product(), &mut saved, &rows, &info, &gemini);
    assert_eq!(saved[0].email.as_deref(), Some("me@example.com"));
    assert_eq!(saved[1].email, None);
    let mut only = vec![record("acme-code", "solo")];
    enrich_saved_accounts(&product(), &mut only, &vec![], &info, &None);
    assert_eq!(only[0].email.as_deref(), Some("me@example.com"));
}

#[test]
fn a_source_has_the_last_word_on_its_keys() {
    let mut usage = snapshot();
    usage.quota = quota("remaining_percent", "1.0");
    apply_quota_source(&mut usage, "kind", "place", quota("remaining_percent", "2.0"));
    assert!(matches!(
        usage.quota.get("remaining_percent"),
        Some(Json::Number(n)) if n.text == "2.0"
    ));
    assert_eq!(usage.sources[0].kind, "kind");
    assert_eq!(usage.sources[0].path_or_url.as_deref(), Some("place"));
}

#[test]
fn sources_are_asked_one_after_the_other() {
    let mut usage = snapshot();
    assert!(!claude_was_asked(&usage));
    let warning = take_claude_api(
        &product(),
        &mut usage,
        ApiOutcome::Failed {
            rate_limited: true,
            message: "slow down".to_string(),
        },
    )
    .expect("warning");
    assert!(warning.contains("Acme") && warning.contains("slow down"));
    assert_eq!(
        next_claude_source(&usage, ClaudeSource::Api, true, true),
        Some(ClaudeSource::Hint)
    );
    assert_eq!(
        next_claude_source(&usage, ClaudeSource::Api, true, false),
        Some(ClaudeSource::Cli)
    );
    assert_eq!(next_claude_source(&usage, ClaudeSource::Api, false, false), None);
    take_claude_source(
        &product(),
        &mut usage,
        ClaudeSource::Hint,
        Some(quota("remaining_percent", "0.0")),
    );
    assert!(claude_was_asked(&usage));
    assert_eq!(
        usage.sources[0].path_or_url.as_deref(),
        Some("~/.acme/projects/**/*.jsonl")
    );
    assert_eq!(next_claude_source(&usage, ClaudeSource::Hint, true, false), None);
    finish_probe(&mut usage, Some(warning));
    assert!(usage.warnings.len() <= 1);
    assert_eq!(
        claude_plan_from_credentials(br#"{"claudeAiOauth":{"rateLimitTier":"tier"}}"#).as_deref(),
        Some("tier")
    );
}

#[test]
fn logs_are_asked_where_the_service_said_nothing() {
    let mut usage = snapshot();
    assert!(!codex_was_asked(&usage));
    assert!(take_codex_api(
        &mut usage,
        ApiOutcome::NoCredential {
            message: "gone".to_string()
        }
    )
    .is_some());
    assert!(codex_logs_are_asked(&usage, true));
    assert!(!codex_logs_are_asked(&usage, false));
    take_codex_logs(&mut usage, Some(quota("plan", "\"plus\"")));
    assert!(codex_was_asked(&usage));

    let mut usage = snapshot();
    assert!(!gemini_was_asked(&usage));
    assert!(take_gemini_outcome(
        &mut usage,
        GeminiOutcome::Quota(quota("plan", "\"plus\"")),
        true
    )
    .is_none());
    assert!(gemini_was_asked(&usage));

    let mut usage = snapshot();
    let cause = take_gemini_outcome(
        &mut usage,
        GeminiOutcome::Failed {
            message: "no".to_string(),
        },
        true,
    );
    assert!(cause.is_some());
    take_current_gemini(
        &mut usage,
        "no",
        CurrentGemini::Quota(quota("project_id", "\"p\"")),
    );
    assert!(usage.quota.contains_key("project_id"));
    let mut usage = snapshot();
    take_current_gemini(
        &mut usage,
        "no",
        CurrentGemini::Failed {
            message: "worse".to_string(),
        },
    );
    assert!(!usage.warnings.is_empty());
}

#[test]
fn what_a_probe_added_is_kept_for_a_while() {
    let now = Timestamp {
        secs: 1_000,
        nanos: 0,
    };
    let mut usage = snapshot();
    let before = mark_snapshot(&usage);
    assert!(live_cache_since(&usage, &before, now).is_none());
    apply_quota_source(&mut usage, "kind", "place", quota("plan", "\"pro\""));
    let cache = live_cache_since(&usage, &before, now).expect("cache");
    assert_eq!(cache.ttl_s, LIVE_CACHE_FRESH_SECS);
    assert_eq!(cache.sources.len(), 1);
    assert!(live_cache_is_fresh(
        now,
        60,
        Timestamp {
            secs: 1_059,
            nanos: 0
        }
    ));
    assert!(!live_cache_is_fresh(
        now,
        60,
        Timestamp {
            secs: 1_061,
            nanos: 0
        }
    ));
    let mut fresh = snapshot();
    apply_live_cache(&mut fresh, &cache);
    assert!(fresh.quota.contains_key("plan"));
    assert_eq!(fresh.sources.len(), 1);
    let paths = AswitchPaths::resolve(Some("/c".to_string()), None).ok().expect("paths");
    assert!(live_cache_path(&paths, "demo", "work").ends_with("live_quota.json"));
}

#[test]
fn a_plugin_tells_whom_to_ask() {
    let product = product();
    assert_eq!(find_provider(&product, "gemini"), Some(Provider::Gemini));
    assert_eq!(find_provider(&product, "codex"), Some(Provider::Codex));
    assert_eq!(find_provider(&product, "acme-code"), Some(Provider::Claude));
    assert_eq!(find_provider(&product, "acme"), None);
    assert_eq!(find_provider(&product, ""), None);
}
