use aswitch::claude::{
    active_session_block, after_asking, after_refreshing, begin_fetch, build_session_quota,
    collapse_terminal_output, credential_plan, floor_to_hour_utc, hint_quota, latest_quota_hint,
    local_quota_hint, local_quota_hint_from_line, next_occurrence, parse_assistant_token_record,
    parse_cli_quota_output, parse_credentials, parse_meridiem_reset, parse_reset_from_message,
    plan_token_limit, printed_quota, quota_from_usage_response, read_refresh_reply,
    read_usage_reply, refresh_edits, refresh_fields, session_fits, session_records, session_use,
    sort_records,
    timestamp_within_session_window, usage_request, usage_windows, ClaudeError, ClaudeWindows,
    ClockTime, Product, QuotaFetch, TokenRecord, CLAUDE_USAGE_URL, SESSION_BLOCK_HOURS,
};
use aswitch::json::{Json, Number};
use aswitch::quota::{apply_edits, EditValue, HttpReply, WindowQuota, WindowReading};
use aswitch::text_map::TextMap;
use aswitch::time::{Timestamp, LAST_SECOND};
use chrono::{DateTime, Duration, Utc};

fn product() -> Product {
    Product {
        word: "acme".to_string(),
        title: "Acme".to_string(),
    }
}

fn json(text: &str) -> Json {
    Json::parse(text).ok().expect("json")
}

fn number(value: f64) -> Number {
    match json(&format!("{value:?}")) {
        Json::Number(n) => n,
        _ => panic!("not a number"),
    }
}

fn float(quota: &TextMap<Json>, key: &str) -> Option<f64> {
    match quota.get(key) {
        Some(Json::Number(n)) => n.bits.map(f64::from_bits),
        _ => None,
    }
}

fn text(quota: &TextMap<Json>, key: &str) -> Option<String> {
    match quota.get(key) {
        Some(Json::Text(s)) => Some(s.clone()),
        _ => None,
    }
}

fn window(reading: Option<WindowReading>) -> Option<WindowQuota> {
    reading.map(|reading| {
        let used = f64::from_bits(reading.used_bits).clamp(0.0, 100.0);
        WindowQuota {
            remaining: number((100.0 - used).clamp(0.0, 100.0)),
            used: number(used),
            reset_time: reading.reset_time,
        }
    })
}

fn stamp(time: DateTime<Utc>) -> Timestamp {
    Timestamp {
        secs: time.timestamp(),
        nanos: time.timestamp_subsec_nanos(),
    }
}

fn at(time: &str) -> Timestamp {
    stamp(
        DateTime::parse_from_rfc3339(time)
            .unwrap()
            .with_timezone(&Utc),
    )
}

fn record(time: &str, tokens: u64) -> TokenRecord {
    TokenRecord {
        at: at(time),
        tokens,
    }
}

#[test]
fn claude_api_prefers_most_constrained_window() {
    let value = json(
        r#"{
            "five_hour": {
                "utilization": 20.0,
                "resets_at": "2026-04-26T03:40:00Z"
            },
            "seven_day": {
                "utilization": 100.0,
                "resets_at": "2026-04-28T03:40:00Z"
            },
            "seven_day_sonnet": {
                "utilization": 10.0,
                "resets_at": "2026-04-28T03:40:00Z"
            }
        }"#,
    );

    let readings = usage_windows(&value);
    let windows = ClaudeWindows {
        session: window(readings.session),
        weekly: window(readings.weekly),
        sonnet: window(readings.sonnet),
        opus: window(readings.opus),
    };
    let quota = quota_from_usage_response(
        &windows,
        &Some("pro".to_string()),
        &Some("default_claude_ai".to_string()),
    );
    assert_eq!(text(&quota, "plan").as_deref(), Some("pro"));
    assert_eq!(float(&quota, "session_remaining_percent"), Some(80.0));
    assert_eq!(float(&quota, "weekly_remaining_percent"), Some(0.0));
    assert_eq!(float(&quota, "remaining_percent"), Some(0.0));
    assert_eq!(float(&quota, "used_percent"), Some(100.0));
    assert_eq!(text(&quota, "quota_scope").as_deref(), Some("weekly"));
    assert_eq!(
        text(&quota, "reset_time").as_deref(),
        Some("2026-04-28T03:40:00Z")
    );
}

#[test]
fn claude_cli_output_extracts_remaining_and_reset() {
    let output = "Curretsession0%usedReses11:40am(Asia/Shanghai)Extrausage";
    let printed = parse_cli_quota_output(output).expect("quota");
    let rest = printed
        .percent
        .as_ref()
        .and_then(|percent| percent.value.as_ref())
        .and_then(|value| value.bits)
        .map(|bits| number(100.0 - f64::from_bits(bits)))
        .expect("percent");
    let reset = printed.reset.as_ref().expect("reset");
    assert_eq!((reset.hour, reset.minute), (11, 40));

    let quota = printed_quota(&printed, &rest, &Some("2026-04-26T11:40:00+08:00".to_string()))
        .expect("quota");
    assert_eq!(float(&quota, "used_percent"), Some(0.0));
    assert_eq!(float(&quota, "remaining_percent"), Some(100.0));
    assert!(text(&quota, "reset_time").is_some());
}

#[test]
fn claude_local_rate_limit_line_extracts_hint() {
    let line = r#"{"timestamp":"2026-04-12T03:16:12.543Z","error":"rate_limit","message":{"content":[{"text":"You've hit your limit · resets 3pm (Asia/Shanghai)"}]}}"#;
    let hint = local_quota_hint_from_line(line).expect("quota");
    assert_eq!(hint.timestamp, "2026-04-12T03:16:12.543Z");
    let reset = hint.reset.expect("reset");
    assert_eq!((reset.hour, reset.minute), (15, 0));

    let quota = hint_quota(&Some("2026-04-12T15:00:00+08:00".to_string()));
    assert_eq!(float(&quota, "remaining_percent"), Some(0.0));
    assert_eq!(float(&quota, "used_percent"), Some(100.0));
    assert!(text(&quota, "reset_time").is_some());
}

#[test]
fn claude_reset_message_parser_handles_spaces() {
    assert!(
        parse_reset_from_message("You've hit your limit · resets 3pm (Asia/Shanghai)").is_some()
    );
}

#[test]
fn session_block_active_when_recent() {
    let entries = vec![
        record("2026-04-25T20:30:00Z", 4_000),
        record("2026-04-25T22:15:00Z", 6_000),
    ];
    let now = at("2026-04-25T23:00:00Z");
    let block = active_session_block(&entries, now).expect("active");
    // The session starts at 20:00, so it ends at 01:00 of the next day.
    assert_eq!(block.end, at("2026-04-26T01:00:00Z"));
    assert_eq!(block.tokens_used, 10_000);
}

#[test]
fn session_block_returns_none_when_expired() {
    let entries = vec![record("2026-04-25T10:00:00Z", 1_000)];
    let now = at("2026-04-25T23:00:00Z");
    assert!(active_session_block(&entries, now).is_none());
}

#[test]
fn session_block_starts_new_after_long_gap() {
    let entries = vec![
        record("2026-04-25T08:00:00Z", 5_000),
        record("2026-04-25T17:30:00Z", 2_500),
    ];
    let now = at("2026-04-25T19:00:00Z");
    let block = active_session_block(&entries, now).expect("active");
    // The second session starts at 17:00; only its tokens count.
    assert_eq!(block.end, at("2026-04-25T22:00:00Z"));
    assert_eq!(block.tokens_used, 2_500);
}

#[test]
fn build_session_quota_computes_percentages_for_pro() {
    let now = Utc::now();
    let entries = vec![TokenRecord {
        at: stamp(now - Duration::minutes(30)),
        tokens: 9_500,
    }];
    let used = session_use(&entries, stamp(now), Some("pro")).expect("quota");
    assert_eq!(used.tokens_used, 9_500);
    let limit = used.limit.expect("limit");
    let used_percent = (used.tokens_used as f64 / limit as f64 * 100.0).clamp(0.0, 100.0);
    let quota = build_session_quota(
        &used.reset_time,
        &Some((number(used_percent), number(100.0 - used_percent))),
    );
    let used = float(&quota, "used_percent").unwrap();
    let remaining = float(&quota, "remaining_percent").unwrap();
    assert!(
        used > 49.0 && used < 51.0,
        "unexpected used_percent: {used}"
    );
    assert!(
        (used + remaining - 100.0).abs() < 0.001,
        "used + remaining must be 100"
    );
    assert_eq!(text(&quota, "quota_scope").as_deref(), Some("session"));
    assert!(text(&quota, "reset_time").is_some());
}

#[test]
fn build_session_quota_omits_percent_when_plan_unknown() {
    let now = Utc::now();
    let entries = vec![TokenRecord {
        at: stamp(now - Duration::minutes(10)),
        tokens: 100,
    }];
    let used = session_use(&entries, stamp(now), None).expect("quota");
    assert!(used.limit.is_none());
    let quota = build_session_quota(&used.reset_time, &None);
    assert!(quota.get("remaining_percent").is_none());
    assert!(quota.get("used_percent").is_none());
    assert!(text(&quota, "reset_time").is_some());
}

#[test]
fn parse_assistant_token_record_sums_usage_fields() {
    let line = r#"{"timestamp":"2026-04-25T22:00:00Z","type":"assistant","message":{"usage":{"input_tokens":10,"output_tokens":20,"cache_creation_input_tokens":5,"cache_read_input_tokens":7}}}"#;
    let record = parse_assistant_token_record(line).expect("record");
    assert_eq!(record.tokens, 42);
    assert_eq!(record.at, at("2026-04-25T22:00:00Z"));
}

#[test]
fn parse_assistant_token_record_skips_non_assistant() {
    let line = r#"{"timestamp":"2026-04-25T22:00:00Z","type":"user","message":{"usage":{"input_tokens":10}}}"#;
    assert!(parse_assistant_token_record(line).is_none());
}

#[test]
fn plan_token_limit_normalizes_input() {
    assert_eq!(plan_token_limit(Some("pro")), Some(19_000));
    assert_eq!(plan_token_limit(Some("Pro")), Some(19_000));
    assert_eq!(plan_token_limit(Some("max5")), Some(88_000));
    assert_eq!(plan_token_limit(Some("max-5")), Some(88_000));
    assert_eq!(plan_token_limit(Some("max20x")), Some(220_000));
    assert_eq!(plan_token_limit(Some("default_claude_ai")), None);
    assert_eq!(plan_token_limit(None), None);
}

#[test]
fn rate_limit_hint_freshness_is_bounded_by_session_window() {
    let now = at("2026-04-25T22:00:00Z");
    assert!(timestamp_within_session_window("2026-04-25T18:00:00Z", now));
    assert!(!timestamp_within_session_window("2026-04-25T16:00:00Z", now));
    assert!(!timestamp_within_session_window("not a timestamp", now));
}

#[test]
fn session_block_hours_constant_is_five() {
    assert_eq!(SESSION_BLOCK_HOURS, 5);
}

#[test]
fn the_names_of_the_assistant_follow_from_its_word() {
    let product = product();
    assert_eq!(product.plugin_id(), "acme-code");
    assert_eq!(product.refresh_url(), "https://platform.acme.com/v1/oauth/token");
    assert_eq!(product.backup_prefix(), ".acme.json.backup.");
    assert_eq!(product.usage_command(), "acme /usage");
    assert_eq!(product.log_hint(), "~/.acme/projects/**/*.jsonl");
    assert_eq!(
        product.session_hint(),
        "~/.acme/projects/**/*.jsonl (session block)"
    );
}

#[test]
fn errors_are_told_with_the_title() {
    let cases = vec![
        (
            ClaudeError::ParseCredentials,
            "failed to parse Acme credentials",
        ),
        (
            ClaudeError::MissingAccessToken,
            "Acme credentials do not contain an access token",
        ),
        (
            ClaudeError::MissingRefreshToken,
            "Acme credentials do not contain a refresh token",
        ),
        (
            ClaudeError::RateLimited {
                retry_after: " (retry after 30s)".to_string(),
            },
            "Acme usage API is rate limited (retry after 30s)",
        ),
        (
            ClaudeError::AuthenticationRequired,
            "Acme authentication is required",
        ),
        (
            ClaudeError::ApiRequest {
                url: "https://example.com".to_string(),
                message: "no".to_string(),
            },
            "Acme API request to https://example.com failed: no",
        ),
    ];
    for (error, words) in cases {
        assert_eq!(error.message("Acme"), words);
    }
}

#[test]
fn a_usage_request_needs_an_access_token() {
    let credentials = json(r#"{"claudeAiOauth":{"accessToken":"tok","refreshToken":"re"}}"#);
    let request = usage_request(&credentials).ok().expect("request");
    assert_eq!(request.url, CLAUDE_USAGE_URL);
    assert!(request
        .headers
        .contains(&("Authorization".to_string(), "Bearer tok".to_string())));

    assert!(matches!(
        usage_request(&json(r#"{"claudeAiOauth":{"accessToken":""}}"#)),
        Err(ClaudeError::MissingAccessToken)
    ));
    assert!(matches!(
        refresh_fields(&json("{}")),
        Err(ClaudeError::MissingRefreshToken)
    ));
    assert!(matches!(
        parse_credentials(b"not json"),
        Err(ClaudeError::ParseCredentials)
    ));
}

#[test]
fn replies_are_told_apart_by_their_status() {
    let status = |code| HttpReply::Status {
        code,
        retry_after: Some("30".to_string()),
        body: "body".to_string(),
    };
    assert!(matches!(
        read_usage_reply(status(401)),
        Err(ClaudeError::AuthenticationRequired)
    ));
    assert!(matches!(
        read_usage_reply(status(403)),
        Err(ClaudeError::AuthenticationRequired)
    ));
    assert!(matches!(
        read_usage_reply(status(429)),
        Err(ClaudeError::RateLimited { .. })
    ));
    match read_refresh_reply(&product(), status(403)) {
        Err(ClaudeError::ApiRequest { url, message }) => {
            assert_eq!(url, "https://platform.acme.com/v1/oauth/token");
            assert_eq!(message, "body");
        }
        _ => panic!("an error of the service was expected"),
    }
    assert!(matches!(
        read_refresh_reply(&product(), status(400)),
        Err(ClaudeError::AuthenticationRequired)
    ));
    assert!(read_usage_reply(HttpReply::Value(Json::Null)).is_ok());
}

#[test]
fn a_refused_token_is_refreshed_once() {
    assert!(matches!(begin_fetch(), QuotaFetch::Ask { refreshed: false }));
    assert!(matches!(
        after_asking(false, Err(ClaudeError::AuthenticationRequired)),
        QuotaFetch::Refresh
    ));
    assert!(matches!(
        after_asking(true, Err(ClaudeError::AuthenticationRequired)),
        QuotaFetch::Done(Err(ClaudeError::AuthenticationRequired))
    ));
    assert!(matches!(
        after_refreshing(None),
        QuotaFetch::Ask { refreshed: true }
    ));
    assert!(matches!(
        after_refreshing(Some(ClaudeError::MissingRefreshToken)),
        QuotaFetch::Done(Err(ClaudeError::MissingRefreshToken))
    ));
    assert!(matches!(
        after_asking(false, Ok(Json::Null)),
        QuotaFetch::Done(Ok(Json::Null))
    ));
}

#[test]
fn new_tokens_change_what_the_credential_holds() {
    let credentials = json(
        r#"{"claudeAiOauth":{"accessToken":"a","refreshToken":"r","expiresAt":1}}"#,
    );
    let refreshed = json(r#"{"access_token":"a2","refresh_token":"r2","expires_in":10}"#);
    let edits = refresh_edits(&product(), &credentials, &refreshed, 1_000)
        .ok()
        .expect("edits");
    assert_eq!(edits.len(), 3);
    assert_eq!(edits[0].field, "accessToken");
    assert!(matches!(&edits[0].value, EditValue::Text(t) if t == "a2"));
    assert_eq!(edits[1].field, "refreshToken");
    assert!(matches!(&edits[1].value, EditValue::Text(t) if t == "r2"));
    assert_eq!(edits[2].outer.as_deref(), Some("claudeAiOauth"));
    assert_eq!(edits[2].field, "expiresAt");
    assert!(matches!(edits[2].value, EditValue::Integer(11_000)));

    let bearer = |credentials: &Json| {
        usage_request(credentials).ok().expect("request").headers[0].1.clone()
    };
    assert_eq!(bearer(&credentials), "Bearer a");
    let renewed = apply_edits(credentials, &edits);
    assert_eq!(bearer(&renewed), "Bearer a2");
    let fields = refresh_fields(&renewed).ok().expect("fields");
    assert_eq!(fields[1], ("refresh_token".to_string(), "r2".to_string()));
    match &renewed {
        Json::Object { text, .. } => assert_eq!(
            text,
            r#"{"claudeAiOauth":{"accessToken":"a2","expiresAt":11000,"refreshToken":"r2"}}"#
        ),
        _ => panic!("an object was expected"),
    }

    let bare = json(r#"{"other":[1,2.5,null,true,"x"],"claudeAiOauth":{"accessToken":"a","plan":"p"}}"#);
    let edits = refresh_edits(&product(), &bare, &refreshed, 1_000).ok().expect("edits");
    match apply_edits(bare, &edits) {
        Json::Object { text, .. } => assert_eq!(
            text,
            r#"{"claudeAiOauth":{"accessToken":"a2","plan":"p"},"other":[1,2.5,null,true,"x"]}"#
        ),
        _ => panic!("an object was expected"),
    }

    let credentials = json("{}");
    match refresh_edits(&product(), &credentials, &json("{}"), 0) {
        Err(ClaudeError::ApiRequest { message, .. }) => {
            assert_eq!(message, "refresh response did not contain access_token")
        }
        _ => panic!("an error was expected"),
    }
}

#[test]
fn a_credential_names_its_plan() {
    let credentials =
        json(r#"{"claudeAiOauth":{"subscriptionType":"pro","rateLimitTier":"tier"}}"#);
    let (subscription, tier) = credential_plan(&credentials);
    assert_eq!(subscription.as_deref(), Some("pro"));
    assert_eq!(tier.as_deref(), Some("tier"));
}

#[test]
fn records_come_from_the_lines_that_hold_one() {
    let line = |time: &str, tokens: u64| {
        format!(
            r#"{{"type":"assistant","timestamp":"{time}","message":{{"usage":{{"input_tokens":{tokens}}}}}}}"#
        )
    };
    let records = session_records(&vec![
        line("2026-04-25T20:00:00Z", 3),
        "no json".to_string(),
        r#"{"type":"user"}"#.to_string(),
        line("2026-04-25T19:00:00Z", 4),
        line("soon", 5),
    ]);
    let read: Vec<_> = records.iter().map(|record| (record.at, record.tokens)).collect();
    assert_eq!(
        read,
        vec![(at("2026-04-25T20:00:00Z"), 3), (at("2026-04-25T19:00:00Z"), 4)]
    );
    assert!(session_records(&vec![]).is_empty());
}

#[test]
fn the_last_session_has_to_end_within_the_calendar() {
    let records = |before_the_end: &[i64]| {
        before_the_end
            .iter()
            .map(|seconds| TokenRecord {
                at: Timestamp {
                    secs: LAST_SECOND - seconds,
                    nanos: 0,
                },
                tokens: 1,
            })
            .collect::<Vec<_>>()
    };
    assert!(session_fits(&vec![]));
    assert!(session_fits(&records(&[18_000])));
    assert!(!session_fits(&records(&[17_999])));
    assert!(!session_fits(&records(&[0])));
    // A later record belongs to the session that an earlier one began.
    assert!(session_fits(&records(&[14_400, 18_000])));
}

#[test]
fn the_hour_is_the_start_of_a_session() {
    assert_eq!(
        floor_to_hour_utc(at("2026-04-25T20:59:59.5Z")),
        at("2026-04-25T20:00:00Z")
    );
    assert_eq!(
        floor_to_hour_utc(at("1969-12-31T23:30:00Z")),
        at("1969-12-31T23:00:00Z")
    );
}

#[test]
fn records_are_sorted_by_their_time() {
    let sorted = sort_records(&vec![
        record("2026-04-25T12:00:00Z", 2),
        record("2026-04-25T10:00:00Z", 1),
        record("2026-04-25T12:00:00Z", 3),
    ]);
    let tokens: Vec<u64> = sorted.iter().map(|r| r.tokens).collect();
    assert_eq!(tokens, vec![1, 2, 3]);
    let block = active_session_block(&sorted, at("2026-04-25T12:30:00Z")).expect("active");
    // The last record lies in the session that is found.
    assert!(sorted[2].at.is_before(&block.end));
    assert_eq!(block.tokens_used, 6);
}

#[test]
fn the_clock_of_a_reset_has_twelve_hours() {
    let clock = |text: &str| parse_meridiem_reset(text).map(|t| (t.hour, t.minute));
    assert_eq!(clock("12am (UTC)"), Some((0, 0)));
    assert_eq!(clock("12:05pm(UTC)"), Some((12, 5)));
    assert_eq!(clock("3PM (UTC)"), Some((15, 0)));
    assert_eq!(clock("13pm (UTC)"), Some((13, 0)));
    assert_eq!(clock("3:75pm (UTC)"), None);
    assert_eq!(clock("3pm"), None);
    let ClockTime { hour, minute } =
        parse_reset_from_message("resets 11:40am (Europe/Berlin)").expect("reset");
    assert_eq!((hour, minute), (11, 40));
}

#[test]
fn a_reset_that_has_passed_is_the_next_day() {
    let now = at("2026-04-25T12:00:00Z");
    assert_eq!(
        next_occurrence(at("2026-04-25T11:00:00Z"), now),
        at("2026-04-26T11:00:00Z")
    );
    assert_eq!(
        next_occurrence(at("2026-04-25T13:00:00Z"), now),
        at("2026-04-25T13:00:00Z")
    );
}

#[test]
fn the_latest_hint_counts_while_it_is_fresh() {
    let line = |time: &str, reset: &str| {
        format!(
            r#"{{"timestamp":"{time}","error":"rate_limit","message":{{"content":[{{"text":"resets {reset} (UTC)"}}]}}}}"#
        )
    };
    let lines = vec![
        line("2026-04-25T20:00:00Z", "3pm"),
        line("2026-04-25T18:00:00Z", "2pm"),
        "not json".to_string(),
    ];
    let hint = latest_quota_hint(&lines).expect("hint");
    assert_eq!(hint.timestamp, "2026-04-25T20:00:00Z");
    assert!(local_quota_hint(&lines, at("2026-04-25T22:00:00Z")).is_some());
    assert!(local_quota_hint(&lines, at("2026-04-26T22:00:00Z")).is_none());
}

#[test]
fn terminal_output_is_left_without_its_controls() {
    assert_eq!(
        collapse_terminal_output("\u{1b}[31mCurrent\u{1b}[0m session \r\n 10% used"),
        "Currentsession10%used"
    );
    assert!(parse_cli_quota_output(" \r\n").is_none());
    let empty = parse_cli_quota_output("nothing to see").expect("output");
    assert!(empty.percent.is_none() && empty.reset.is_none());
    assert!(printed_quota(&empty, &number(0.0), &None).is_none());
    let printed = parse_cli_quota_output("25% left").expect("quota");
    let percent = printed.percent.expect("percent");
    assert_eq!(percent.word, "left");
    assert_eq!(
        percent.value.and_then(|n| n.bits).map(f64::from_bits),
        Some(25.0)
    );
}
