use aswitch::cmd::usage::{entry, format_quota, simple_entry};
use aswitch::identity::Identity;
use aswitch::json::Json;
use aswitch::paths::AswitchPaths;
use aswitch::plugin::{
    CredentialStore, CredentialStoreKind, LoginConfig, Manifest, Platform, ReadyMarkerKind,
    UsageFormat, UsageSource, UsageSourceKind,
};
use aswitch::registry::{AccountMetadata, Registry};
use aswitch::text_map::TextMap;
use aswitch::time::Timestamp;
use aswitch::usage::filter::{matches_record_filter, parse_literal, split_expression, Literal};
use aswitch::usage::records::{
    api_request, collect_json, collect_jsonl, file_read, parse_timestamp, read_api_body, Amount,
    FileRead, MetricUpdate,
};
use aswitch::usage::snapshot::{
    api_summary, assemble_usage, local_summary, Collected, UsageMetrics, UsageSnapshot,
    UsageSourceSummary,
};
use aswitch::usage::template::{expand_template, scalar_to_string};
use aswitch::usage::{
    cache_path, cache_status, clear_cache, determine_selection, determine_window, is_fresh,
    plan_usage, use_cached, CollectUsageOptions, UsageError, UsageSelection, UsageWindow, WindowBounds,
};
use chrono::{DateTime, TimeDelta, Utc};

fn json(text: &str) -> Json {
    Json::parse(text).ok().expect("json")
}

fn at(time: &str) -> Timestamp {
    let time = DateTime::parse_from_rfc3339(time)
        .expect("time")
        .with_timezone(&Utc);
    Timestamp {
        secs: time.timestamp(),
        nanos: time.timestamp_subsec_nanos(),
    }
}

fn map(entries: &[(&str, &str)]) -> TextMap<String> {
    let mut map = TextMap::new();
    for (key, value) in entries {
        map.insert(key.to_string(), value.to_string());
    }
    map
}

fn source(kind: UsageSourceKind) -> UsageSource {
    UsageSource {
        kind,
        method: None,
        url: None,
        headers: TextMap::new(),
        response_metric_pointer: TextMap::new(),
        response_quota_pointer: TextMap::new(),
        cache_ttl_s: None,
        path: None,
        format: Some(UsageFormat::Jsonl),
        timestamp_pointer: Some("timestamp".to_string()),
        record_filter: None,
        metric_map: TextMap::new(),
        default_window: Some("current_month".to_string()),
    }
}

fn open_bounds() -> WindowBounds {
    WindowBounds {
        from: None,
        to: None,
    }
}

/// The sum of what some updates say of a metric.
fn total(updates: &[MetricUpdate], name: &str) -> Option<f64> {
    let amounts: Vec<f64> = updates
        .iter()
        .filter(|update| update.name == name)
        .map(|update| match &update.amount {
            Amount::One => 1.0,
            Amount::Bits(bits) => f64::from_bits(*bits),
            Amount::Text(text) => text.parse().unwrap_or(0.0),
        })
        .collect();
    if amounts.is_empty() {
        None
    } else {
        Some(amounts.iter().sum())
    }
}

fn identity() -> Identity {
    Identity {
        email: Some("amos@example.com".to_string()),
        org_name: None,
        plan: Some("plus".to_string()),
        extra: TextMap::new(),
    }
}

fn manifest(sources: Vec<UsageSource>) -> Manifest {
    Manifest {
        id: "demo".to_string(),
        display_name: "Demo".to_string(),
        version: "1.0.0".to_string(),
        author: "tests".to_string(),
        description: "usage tests".to_string(),
        platforms: vec![Platform::Macos, Platform::Linux],
        credential_store: CredentialStore {
            kind: CredentialStoreKind::File,
            path: Some("/auth.json".to_string()),
            permissions: Some(384),
            macos_service: None,
            macos_account: None,
            linux_schema: None,
            linux_attributes: TextMap::new(),
            linux_fallback_kind: None,
            linux_fallback_path: None,
            linux_fallback_permissions: None,
            allow_empty_active: false,
        },
        session_activation: None,
        aux_files: vec![],
        identity_extract: vec![],
        login: LoginConfig {
            cmd: vec!["demo".to_string()],
            ready_marker_kind: ReadyMarkerKind::File,
            ready_marker_timeout_s: 1,
            ready_marker_path: Some("/auth.json".to_string()),
        },
        usage_source: sources,
    }
}

fn registry() -> Registry {
    let mut registry = Registry::empty();
    registry
        .active
        .insert("demo".to_string(), Some("work".to_string()));
    let mut accounts = TextMap::new();
    accounts.insert(
        "work".to_string(),
        AccountMetadata {
            alias: "work".to_string(),
            email: Some("amos@example.com".to_string()),
            org_name: None,
            plan: Some("plus".to_string()),
            added_at: at("2026-04-24T00:00:00Z"),
            last_used_at: Some(at("2026-04-24T00:00:00Z")),
        },
    );
    registry.accounts.insert("demo".to_string(), accounts);
    registry
}

#[test]
fn usage_collects_local_jsonl_and_uses_cache() {
    let mut local = source(UsageSourceKind::LocalLog);
    local.record_filter = Some("type == 'assistant'".to_string());
    local.metric_map = map(&[
        ("requests", "$count"),
        ("tokens_in", "usage.prompt_tokens"),
        ("tokens_out", "usage.completion_tokens"),
    ]);
    let time = "2026-04-24T10:00:00Z";
    let lines = vec![
        format!(
            r#"{{"timestamp":"{time}","type":"assistant","usage":{{"prompt_tokens":10,"completion_tokens":4}}}}"#
        ),
        format!(
            r#"{{"timestamp":"{time}","type":"user","usage":{{"prompt_tokens":8,"completion_tokens":1}}}}"#
        ),
        String::new(),
    ];
    let bounds = UsageWindow::CurrentMonth.bounds(at(time)).ok().expect("bounds");
    let updates = collect_jsonl(&local, &bounds, "/one.jsonl", &lines)
        .ok()
        .expect("first collect");
    assert_eq!(total(&updates, "requests"), Some(1.0));
    assert_eq!(total(&updates, "tokens_in"), Some(10.0));
    assert_eq!(total(&updates, "tokens_out"), Some(4.0));

    let options = CollectUsageOptions {
        window: None,
        source: None,
        refresh: false,
    };
    let plan = plan_usage(
        &registry(),
        &manifest(vec![source(UsageSourceKind::LocalLog)]),
        "demo",
        "work",
        &options,
        at(time),
    )
    .ok()
    .expect("plan");
    let mut metrics = UsageMetrics::none();
    for name in ["requests", "tokens_in", "tokens_out"] {
        let sum = total(&updates, name).expect("sum");
        metrics.set_metric(name, sum.to_bits());
    }
    let summed = vec![Collected {
        local: true,
        summary: local_summary(&local, metrics, vec![]),
    }];
    let first = assemble_usage(
        "demo",
        "work",
        &plan,
        &summed,
        &summed[0].summary.metrics,
        &UsageMetrics::none(),
    );
    assert_eq!(first.metrics.requests, Some(1.0f64.to_bits()));
    assert_eq!(first.metrics.tokens_in, Some(10.0f64.to_bits()));
    assert!(!first.cached);
    assert!(use_cached(false, plan.ttl_s, at(time), None).is_none());

    let second = use_cached(false, plan.ttl_s, at(time), Some((at(time), first)))
        .expect("second collect");
    assert!(second.cached);
    assert_eq!(second.metrics.requests, Some(1.0f64.to_bits()));
    assert!(use_cached(true, plan.ttl_s, at(time), Some((at(time), second))).is_none());

    assert!(is_fresh(at(time), 300, at("2026-04-24T10:04:59Z")));
    assert!(!is_fresh(at(time), 300, at("2026-04-24T10:05:01Z")));
    let status = cache_status("/cache.json", at(time), 300, 300, at("2026-04-24T10:01:00Z"));
    assert!(status.fresh);
    assert_eq!(status.expires_at, at("2026-04-24T10:05:00Z"));
}

#[test]
fn usage_collects_provider_api_for_active_account() {
    let mut api = source(UsageSourceKind::ProviderApi);
    api.url = Some("http://127.0.0.1/usage?email=${account:email}".to_string());
    api.headers = map(&[("Authorization", "Bearer ${cred:access_token}")]);
    api.response_metric_pointer = map(&[("requests", "data.request_count")]);
    api.response_quota_pointer = map(&[("limit_tokens", "data.limit")]);

    let request = api_request(
        &api,
        &br#"{"access_token":"demo"}"#.to_vec(),
        &identity(),
        &open_bounds(),
    );
    assert!(request.url.contains("email=amos@example.com"));
    assert_eq!(
        request.headers,
        vec![("Authorization".to_string(), "Bearer demo".to_string())]
    );
    let reading = read_api_body(
        &api,
        &request.url,
        r#"{"data":{"request_count":5,"limit":12345}}"#,
    )
    .ok()
    .expect("collect usage");
    assert_eq!(total(&reading.updates, "requests"), Some(5.0));
    assert!(matches!(
        reading.quota.get("limit_tokens"),
        Some(Json::Number(n)) if n.signed == Some(12345)
    ));
    assert!(read_api_body(&api, "u", "{").is_err());
}

#[test]
fn usage_collects_codex_token_count_events() {
    let mut local = source(UsageSourceKind::LocalLog);
    local.record_filter = Some(
        "type == 'event_msg' && payload.type == 'token_count' && payload.info != null".to_string(),
    );
    let usage = "payload.info.last_token_usage";
    let pointers: Vec<(String, String)> = vec![
        ("requests".to_string(), "$count".to_string()),
        ("tokens_in".to_string(), format!("{usage}.input_tokens")),
        ("tokens_out".to_string(), format!("{usage}.output_tokens")),
        (
            "cached_input_tokens".to_string(),
            format!("{usage}.cached_input_tokens"),
        ),
        (
            "reasoning_output_tokens".to_string(),
            format!("{usage}.reasoning_output_tokens"),
        ),
    ];
    for (name, pointer) in pointers {
        local.metric_map.insert(name, pointer);
    }
    let time = "2026-04-24T10:00:00Z";
    let event = |info: &str| {
        format!(
            r#"{{"timestamp":"{time}","type":"event_msg","payload":{{"type":"token_count","info":{info}}}}}"#
        )
    };
    let lines = vec![
        event("null"),
        event(
            r#"{"last_token_usage":{"input_tokens":120,"cached_input_tokens":50,"output_tokens":30,"reasoning_output_tokens":7}}"#,
        ),
        event(
            r#"{"last_token_usage":{"input_tokens":80,"cached_input_tokens":20,"output_tokens":10,"reasoning_output_tokens":3}}"#,
        ),
    ];
    let bounds = UsageWindow::CurrentMonth.bounds(at(time)).ok().expect("bounds");
    let updates = collect_jsonl(&local, &bounds, "/codex.jsonl", &lines)
        .ok()
        .expect("collect usage");

    assert_eq!(total(&updates, "requests"), Some(2.0));
    assert_eq!(total(&updates, "tokens_in"), Some(200.0));
    assert_eq!(total(&updates, "tokens_out"), Some(40.0));
    assert_eq!(total(&updates, "cached_input_tokens"), Some(70.0));
    assert_eq!(total(&updates, "reasoning_output_tokens"), Some(10.0));
}

#[test]
fn usage_collects_gemini_chat_records_without_counting_toolcall_updates() {
    let mut local = source(UsageSourceKind::LocalLog);
    local.record_filter = Some("type == 'gemini' && toolCalls == null".to_string());
    local.metric_map = map(&[
        ("requests", "$count"),
        ("tokens_in", "tokens.input"),
        ("tokens_out", "tokens.output"),
        ("cached_input_tokens", "tokens.cached"),
        ("reasoning_output_tokens", "tokens.thoughts"),
        ("tool_tokens", "tokens.tool"),
    ]);
    let time = "2026-04-24T10:00:00Z";
    let first = r#""tokens":{"input":100,"output":12,"cached":20,"thoughts":5,"tool":2}"#;
    let second = r#""tokens":{"input":80,"output":10,"cached":8,"thoughts":3,"tool":1}"#;
    let lines = vec![
        format!(
            r#"{{"sessionId":"abc","startTime":"{time}","lastUpdated":"{time}","kind":"main"}}"#
        ),
        format!(r#"{{"id":"m1","timestamp":"{time}","type":"gemini",{first}}}"#),
        format!(
            r#"{{"id":"m1","timestamp":"{time}","type":"gemini",{first},"toolCalls":[{{"id":"call1"}}]}}"#
        ),
        format!(r#"{{"id":"m2","timestamp":"{time}","type":"gemini",{second}}}"#),
    ];
    let bounds = UsageWindow::CurrentMonth.bounds(at(time)).ok().expect("bounds");
    let updates = collect_jsonl(&local, &bounds, "/gemini.jsonl", &lines)
        .ok()
        .expect("collect usage");

    assert_eq!(total(&updates, "requests"), Some(2.0));
    assert_eq!(total(&updates, "tokens_in"), Some(180.0));
    assert_eq!(total(&updates, "tokens_out"), Some(22.0));
    assert_eq!(total(&updates, "cached_input_tokens"), Some(28.0));
    assert_eq!(total(&updates, "reasoning_output_tokens"), Some(8.0));
    assert_eq!(total(&updates, "tool_tokens"), Some(3.0));
}

#[test]
fn clear_cache_removes_cached_plugin_directory() {
    let entries = vec!["demo".to_string(), "other".to_string()];
    let removed = clear_cache(&entries, &Some("demo".to_string()));
    assert_eq!(removed, vec!["demo"]);
    assert_eq!(clear_cache(&entries, &None).len(), 2);
}

#[test]
fn record_filter_supports_and_or_expressions() {
    let record = json(r#"{"type":"assistant","role":"assistant","usage":{"prompt_tokens":10}}"#);
    let matches = |filter: &str| matches_record_filter(&Some(filter.to_string()), &record);
    assert!(matches("type == 'assistant' && role == 'assistant'"));
    assert!(matches("type == 'assistant' || role == 'user'"));
    assert!(!matches("type != 'assistant' && role == 'assistant'"));
    assert!(matches_record_filter(&None, &record));
    assert!(matches("usage.prompt_tokens == 10"));
    assert!(!matches("usage.prompt_tokens == 11"));
}

#[test]
fn expand_template_supports_window_cred_and_account_values() {
    let bounds = WindowBounds {
        from: Some(at("2026-04-01T00:00:00Z")),
        to: Some(at("2026-05-01T00:00:00Z")),
    };
    let rendered = expand_template(
        "Bearer ${cred:token} ${account:email} ${window:from_date}",
        &br#"{"token":"abc"}"#.to_vec(),
        &Some(json(r#"{"token":"abc"}"#)),
        &identity(),
        &bounds,
    );
    assert_eq!(rendered, "Bearer abc amos@example.com 2026-04-01");
    let rendered = expand_template(
        "no placeholders",
        &vec![],
        &None,
        &identity(),
        &bounds,
    );
    assert_eq!(rendered, "no placeholders");
}

#[test]
fn literals_are_texts_words_or_numbers() {
    assert!(matches!(parse_literal("'a b'"), Literal::Text(t) if t == "a b"));
    assert!(matches!(parse_literal("true"), Literal::Bool(true)));
    assert!(matches!(parse_literal("null"), Literal::Null));
    assert!(matches!(
        parse_literal("1.5"),
        Literal::Number(n) if n.bits == Some(1.5f64.to_bits())
    ));
    assert!(matches!(parse_literal("word"), Literal::Text(t) if t == "word"));
    assert_eq!(split_expression("a && 'b && c'", "&&").len(), 2);
}

#[test]
fn windows_and_selections_are_read_as_they_are_written() {
    for window in [
        UsageWindow::Today,
        UsageWindow::Last24h,
        UsageWindow::Last7d,
        UsageWindow::CurrentMonth,
        UsageWindow::Last30d,
        UsageWindow::All,
    ] {
        assert_eq!(UsageWindow::parse(window.as_str()), Some(window));
    }
    for selection in [
        UsageSelection::Local,
        UsageSelection::Api,
        UsageSelection::Both,
    ] {
        assert_eq!(UsageSelection::parse(selection.as_str()), Some(selection));
    }
    assert_eq!(UsageWindow::parse("never"), None);
}

#[test]
fn windows_hold_the_times_within_them() {
    let now = at("2026-04-24T10:30:00Z");
    let bounds = |window: UsageWindow| window.bounds(now).ok().expect("bounds");
    let month = bounds(UsageWindow::CurrentMonth);
    assert_eq!(month.from, Some(at("2026-04-01T00:00:00Z")));
    assert!(month.contains(now));
    assert!(!month.contains(at("2026-03-31T23:59:59Z")));
    let today = bounds(UsageWindow::Today);
    assert_eq!(today.from, Some(at("2026-04-24T00:00:00Z")));
    assert!(today.contains(now));
    let week = bounds(UsageWindow::Last7d);
    assert_eq!(week.from, Some(at("2026-04-17T10:30:00Z")));
    let day = bounds(UsageWindow::Last24h);
    // What lies in the last day lies in the last week.
    let earlier = at("2026-04-23T11:00:00Z");
    assert!(day.contains(earlier) && week.contains(earlier));
    assert!(bounds(UsageWindow::All).contains(at("1970-01-01T00:00:00Z")));
}

#[test]
fn sources_decide_what_is_collected() {
    let local = || source(UsageSourceKind::LocalLog);
    let api = || source(UsageSourceKind::ProviderApi);
    assert_eq!(
        determine_selection(&vec![local()], Some(UsageSelection::Api)),
        UsageSelection::Api
    );
    assert_eq!(
        determine_window(&vec![local()], None).ok(),
        Some(UsageWindow::CurrentMonth)
    );
    let mut odd = local();
    odd.default_window = Some("never".to_string());
    assert!(matches!(
        determine_window(&vec![odd], None),
        Err(UsageError::InvalidWindow(_))
    ));

    let options = CollectUsageOptions {
        window: None,
        source: Some(UsageSelection::Both),
        refresh: false,
    };
    let plan = plan_usage(
        &registry(),
        &manifest(vec![local(), api()]),
        "demo",
        "work",
        &options,
        at("2026-04-24T10:30:00Z"),
    )
    .ok()
    .expect("plan");
    assert_eq!(plan.picked, vec![0, 1]);
    assert_eq!(plan.identity.email.as_deref(), Some("amos@example.com"));
    assert!(matches!(
        plan_usage(
            &registry(),
            &manifest(vec![local()]),
            "demo",
            "none",
            &options,
            at("2026-04-24T10:30:00Z")
        ),
        Err(UsageError::AccountNotFound { .. })
    ));

    let mut summary = UsageSourceSummary {
        kind: "local_log".to_string(),
        path_or_url: Some("/logs".to_string()),
        metrics: UsageMetrics::none(),
        quota: TextMap::new(),
        warnings: vec!["careful".to_string()],
    };
    summary.metrics.requests = Some(2.0f64.to_bits());
    let mut sum = UsageMetrics::none();
    sum.requests = Some(2.0f64.to_bits());
    let snapshot = assemble_usage(
        "demo",
        "work",
        &plan,
        &vec![Collected {
            local: true,
            summary,
        }],
        &sum,
        &UsageMetrics::none(),
    );
    assert_eq!(snapshot.metrics.requests, Some(2.0f64.to_bits()));
    assert!(snapshot.has_source_kind("local_log"));
    assert_eq!(snapshot.sources[0].warnings, vec!["careful"]);
    assert!(snapshot.local_metrics.is_some() && snapshot.api_metrics.is_none());
    assert!(!snapshot.cached);
}

#[test]
fn metrics_have_places() {
    let mut metrics = UsageMetrics::none();
    for (bits, name) in [(1, "requests"), (2, "tokens_in"), (3, "tokens_out"), (4, "cost_usd")] {
        assert_eq!(metrics.metric(name), None);
        metrics.set_metric(name, bits);
        assert_eq!(metrics.metric(name), Some(bits));
    }
    metrics.set_metric("cache_read_tokens", 5);
    metrics.set_metric("cache_read_tokens", 6);
    assert_eq!(metrics.requests, Some(1));
    assert_eq!(metrics.tokens_in, Some(2));
    assert_eq!(metrics.tokens_out, Some(3));
    assert_eq!(metrics.cost_usd, Some(4));
    assert_eq!(metrics.extra.get("cache_read_tokens"), Some(&6));
    assert_eq!(metrics.metric("none"), None);
}

#[test]
fn sources_are_summed_up() {
    let mut source = source(UsageSourceKind::LocalLog);
    assert!(matches!(file_read(&source, "/a"), FileRead::Lines));
    source.format = None;
    assert!(matches!(file_read(&source, "/a"), FileRead::Lines));
    source.format = Some(UsageFormat::Json);
    assert!(matches!(file_read(&source, "/a"), FileRead::Whole));
    source.format = Some(UsageFormat::RegexLines);
    match file_read(&source, "/a") {
        FileRead::Skip { warning } => {
            assert_eq!(warning, "regex_lines is not yet supported for /a")
        }
        _ => panic!("the format is not supported"),
    }

    let summary = local_summary(&source, UsageMetrics::none(), vec!["w".to_string()]);
    assert_eq!(summary.kind, "local_log");
    assert_eq!(summary.path_or_url.as_deref(), Some(""));
    assert_eq!(summary.warnings, vec!["w"]);
    source.path = Some("~/logs/*.jsonl".to_string());
    let summary = local_summary(&source, UsageMetrics::none(), Vec::new());
    assert_eq!(summary.path_or_url.as_deref(), Some("~/logs/*.jsonl"));

    let mut quota = TextMap::new();
    quota.insert("limit".to_string(), json("3"));
    let summary = api_summary("https://a".to_string(), UsageMetrics::none(), quota);
    assert_eq!(summary.kind, "provider_api");
    assert_eq!(summary.path_or_url.as_deref(), Some("https://a"));
    assert!(summary.quota.contains_key("limit"));
    assert!(summary.warnings.is_empty());
}

#[test]
fn kept_usage_is_used_until_it_is_too_old() {
    let usage = || UsageSnapshot {
        plugin_id: "demo".to_string(),
        alias: "work".to_string(),
        window: UsageWindow::Today,
        source: UsageSelection::Both,
        metrics: UsageMetrics::none(),
        local_metrics: None,
        api_metrics: None,
        quota: TextMap::new(),
        warnings: vec!["careful".to_string()],
        sources: vec![],
        cached: false,
    };
    let saved = at("2026-04-24T10:00:00Z");
    let read = |refresh, now: &str| use_cached(refresh, 60, at(now), Some((saved, usage())));
    let kept = read(false, "2026-04-24T10:00:59.999Z").expect("kept");
    assert!(kept.cached);
    assert_eq!(kept.warnings, vec!["careful"]);
    assert!(read(false, "2026-04-24T10:01:00Z").is_none());
    assert!(read(true, "2026-04-24T10:00:01Z").is_none());
    assert!(use_cached(false, 60, saved, None).is_none());
    assert!(use_cached(false, 0, saved, Some((saved, usage()))).is_none());
    // A lifetime that is no signed number of seconds has passed already.
    assert!(use_cached(false, u64::MAX, saved, Some((saved, usage()))).is_none());
}

#[test]
fn a_metric_is_made_of_the_records_that_count() {
    let mut local = source(UsageSourceKind::LocalLog);
    local.record_filter = Some("kind == 'a'".to_string());
    local.metric_map = map(&[("requests", "$count"), ("tokens_in", "n")]);
    let bounds = WindowBounds {
        from: Some(at("2026-04-24T10:00:00Z")),
        to: Some(at("2026-04-24T11:00:00Z")),
    };
    let record = |time: &str, kind: &str, n: &str| {
        format!(r#"{{"timestamp":"2026-04-24T{time}Z","kind":"{kind}","n":{n}}}"#)
    };
    let lines = vec![
        record("09:59:59", "a", "1"),
        record("10:00:00", "a", "2"),
        record("10:30:00", "b", "4"),
        record("10:30:00", "a", "null"),
        record("10:59:59", "a", "8"),
        record("11:00:00", "a", "16"),
    ];
    let updates = collect_jsonl(&local, &bounds, "/x", &lines).ok().expect("updates");
    assert_eq!(total(&updates, "requests"), Some(3.0));
    assert_eq!(total(&updates, "tokens_in"), Some(10.0));
    let list = format!("[{}]", lines.join(","));
    let updates = collect_json(&local, &bounds, "/x", &list).ok().expect("updates");
    assert_eq!(total(&updates, "requests"), Some(3.0));
    assert_eq!(total(&updates, "tokens_in"), Some(10.0));
}

#[test]
fn a_leap_second_is_moved_as_the_calendar_moves_it() {
    for nanos in [0, 999_999_999, 1_000_000_000, 1_500_000_000, 1_999_999_999] {
        let time = DateTime::from_timestamp(1_483_228_799, nanos).expect("time");
        let stamp = |time: DateTime<Utc>| Timestamp {
            secs: time.timestamp(),
            nanos: time.timestamp_subsec_nanos(),
        };
        let bounds = UsageWindow::Last7d.bounds(stamp(time)).ok().expect("bounds");
        assert_eq!(bounds.from, Some(stamp(time - TimeDelta::days(7))));
        for seconds in [0u64, 1, 300, 86_400] {
            let status = cache_status("/x", stamp(time), seconds, 0, stamp(time));
            let expires = time + TimeDelta::seconds(seconds as i64);
            assert_eq!(status.expires_at, stamp(expires), "{nanos} {seconds}");
            assert_eq!(status.fresh, time < expires, "{nanos} {seconds}");
        }
    }
    let saved = at("2026-04-24T10:00:00Z");
    let status = cache_status("/x", saved, u64::MAX, 300, saved);
    assert_eq!(status.expires_at, at("2026-04-24T09:59:59Z"));
    assert!(!status.fresh);
}

#[test]
fn a_cache_has_its_place() {
    let paths = AswitchPaths::resolve(Some("/c".to_string()), None).ok().expect("paths");
    let path = cache_path(
        &paths,
        "demo",
        "work",
        UsageWindow::Today,
        UsageSelection::Both,
        7,
    );
    assert!(path.starts_with(&paths.usage_cache_dir));
    assert!(path.contains("demo"));
    assert_ne!(
        path,
        cache_path(
            &paths,
            "demo",
            "work",
            UsageWindow::Today,
            UsageSelection::Local,
            7
        )
    );
}

#[test]
fn documents_hold_one_record_or_a_list() {
    let mut local = source(UsageSourceKind::LocalLog);
    local.metric_map = map(&[
        ("requests", "$count"),
        ("big", "$count_if:n == 1"),
        ("tokens_in", "n"),
    ]);
    let updates = collect_json(
        &local,
        &open_bounds(),
        "/a.json",
        r#"[{"timestamp":1,"n":1},{"timestamp":2,"n":"2.5"},{"n":9}]"#,
    )
    .ok()
    .expect("updates");
    assert_eq!(total(&updates, "requests"), Some(2.0));
    assert_eq!(total(&updates, "big"), Some(1.0));
    assert_eq!(total(&updates, "tokens_in"), Some(3.5));
    let updates = collect_json(
        &local,
        &open_bounds(),
        "/a.json",
        r#"{"timestamp":1,"n":4}"#,
    )
    .ok()
    .expect("updates");
    assert_eq!(total(&updates, "tokens_in"), Some(4.0));
    local.timestamp_pointer = None;
    let updates = collect_json(&local, &open_bounds(), "/a.json", r#"{"timestamp":1,"n":4}"#)
        .ok()
        .expect("updates");
    assert!(updates.is_empty());
    assert!(matches!(
        collect_json(&local, &open_bounds(), "/a.json", "{"),
        Err(UsageError::ParseJson { .. })
    ));
}

#[test]
fn times_are_texts_or_numbers() {
    assert_eq!(
        parse_timestamp(&json("\"2026-04-24T10:00:00+02:00\"")),
        Some(at("2026-04-24T08:00:00Z"))
    );
    assert_eq!(parse_timestamp(&json("1777000000")), Some(at("2026-04-24T03:06:40Z")));
    assert_eq!(parse_timestamp(&json("\"yesterday\"")), None);
    assert_eq!(scalar_to_string(&json("1.5")).as_deref(), Some("1.5"));
    assert_eq!(scalar_to_string(&json("[]")), None);
}

#[test]
fn an_allowance_is_told_in_words() {
    let mut quota = TextMap::new();
    assert_eq!(format_quota(&quota, "", ""), "-");
    quota.insert("remaining_percent".to_string(), json("40.0"));
    quota.insert("plan".to_string(), json("\"plus\""));
    let words = format_quota(&quota, "40%", "tomorrow");
    assert!(words.contains("40%"));
    assert!(entry(&quota, "plan").is_some());
    assert_eq!(simple_entry(&quota, "plan").as_deref(), Some("plus"));
    assert_eq!(simple_entry(&quota, "none"), None);
}
