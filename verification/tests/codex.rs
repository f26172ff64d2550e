use aswitch::codex::{
    access_token, after_asking, after_refreshing, begin_fetch, latest_limits,
    local_quota_summary_from_line, number_from_value, parse_credentials, quota_from_limits,
    quota_from_usage_response, read_refresh_reply, read_usage_reply, refresh_body, refresh_edits,
    unix_seconds_to_rfc3339, usage_request, usage_windows, window_reset_from_api, CodexError,
    CodexWindows, QuotaFetch, CODEX_REFRESH_URL, CODEX_USAGE_URL,
};
use aswitch::json::{Json, Number};
use aswitch::quota::{apply_edits, EditValue, HttpReply, WindowQuota, WindowReading};
use aswitch::text_map::TextMap;
use aswitch::time::Timestamp;

fn json(text: &str) -> Json {
    Json::parse(text).ok().expect("json")
}

fn number(value: f64) -> Number {
    match json(&format!("{value:?}")) {
        Json::Number(n) => n,
        _ => panic!("not a number"),
    }
}

fn float(quota: &TextMap<Json>, key: &str) -> Option<f64> {
    match quota.get(key) {
        Some(Json::Number(n)) => n.bits.map(f64::from_bits),
        _ => None,
    }
}

fn text(quota: &TextMap<Json>, key: &str) -> Option<String> {
    match quota.get(key) {
        Some(Json::Text(s)) => Some(s.clone()),
        _ => None,
    }
}

fn window(reading: Option<WindowReading>) -> Option<WindowQuota> {
    reading.map(|reading| {
        let used = f64::from_bits(reading.used_bits).clamp(0.0, 100.0);
        WindowQuota {
            remaining: number((100.0 - used).clamp(0.0, 100.0)),
            used: number(used),
            reset_time: reading.reset_time,
        }
    })
}

fn moment() -> Timestamp {
    Timestamp {
        secs: 1_777_000_000,
        nanos: 0,
    }
}

#[test]
fn codex_api_prefers_most_constrained_window() {
    let value = json(
        r#"{
            "plan_type": "plus",
            "rate_limit": {
                "primary_window": {
                    "used_percent": 0,
                    "reset_at": 1777174973
                },
                "secondary_window": {
                    "used_percent": 100,
                    "reset_at": 1777423747
                }
            }
        }"#,
    );

    let readings = usage_windows(&value, moment());
    let windows = CodexWindows {
        session: window(readings.session),
        weekly: window(readings.weekly),
    };
    let quota = quota_from_usage_response(&value, &windows);
    assert_eq!(text(&quota, "plan").as_deref(), Some("plus"));
    assert_eq!(float(&quota, "remaining_percent"), Some(0.0));
    assert_eq!(float(&quota, "used_percent"), Some(100.0));
    assert_eq!(float(&quota, "weekly_remaining_percent"), Some(0.0));
    assert_eq!(float(&quota, "session_remaining_percent"), Some(100.0));
    assert_eq!(text(&quota, "quota_scope").as_deref(), Some("weekly"));
    assert_eq!(
        text(&quota, "reset_time").as_deref(),
        Some("2026-04-29T00:49:07+00:00")
    );
}

#[test]
fn codex_local_rate_limit_line_extracts_quota() {
    let line = r#"{"timestamp":"2026-04-24T18:25:40.670Z","type":"event_msg","payload":{"type":"token_count","plan_type":"plus","rate_limits":{"primary":{"used_percent":7.0,"resets_at":1777010074},"secondary":{"used_percent":60.0,"resets_at":1777423747}}}}"#;
    let limits = local_quota_summary_from_line(line).expect("quota");
    let windows = CodexWindows {
        session: window(limits.session),
        weekly: window(limits.weekly),
    };
    let quota = quota_from_limits(&limits.plan, &windows);
    assert_eq!(text(&quota, "plan").as_deref(), Some("plus"));
    assert_eq!(float(&quota, "session_remaining_percent"), Some(93.0));
    assert_eq!(float(&quota, "weekly_remaining_percent"), Some(40.0));
    assert_eq!(float(&quota, "remaining_percent"), Some(40.0));
}

#[test]
fn the_latest_limits_count() {
    let line = |time: &str, used: u32| {
        format!(
            r#"{{"timestamp":"{time}","type":"event_msg","payload":{{"type":"token_count","rate_limits":{{"primary":{{"used_percent":{used}}}}}}}}}"#
        )
    };
    let lines = vec![
        line("2026-04-24T18:00:00Z", 1),
        line("2026-04-24T20:00:00Z", 2),
        line("2026-04-24T19:00:00Z", 3),
        "{}".to_string(),
    ];
    let limits = latest_limits(&lines).expect("limits");
    assert_eq!(limits.timestamp, "2026-04-24T20:00:00Z");
    assert_eq!(
        limits.session.map(|s| f64::from_bits(s.used_bits)),
        Some(2.0)
    );
    assert!(latest_limits(&vec!["{}".to_string()]).is_none());
}

#[test]
fn requests_carry_the_tokens_of_the_credential() {
    let credentials = json(
        r#"{"tokens":{"access_token":"tok","refresh_token":"a b/c&ü","account_id":"acc"}}"#,
    );
    assert_eq!(access_token(&credentials).ok().expect("token"), "tok");
    let request = usage_request(&credentials).ok().expect("request");
    assert_eq!(request.url, CODEX_USAGE_URL);
    assert!(request
        .headers
        .contains(&("Authorization".to_string(), "Bearer tok".to_string())));
    let body = refresh_body(&credentials).ok().expect("body");
    assert!(body.starts_with("grant_type=refresh_token&client_id="));
    assert!(body.ends_with("&refresh_token=a%20b%2Fc%26%C3%BC"));

    assert!(matches!(
        access_token(&json("{}")),
        Err(CodexError::MissingAccessToken)
    ));
    assert!(matches!(
        refresh_body(&json("{}")),
        Err(CodexError::MissingRefreshToken)
    ));
    assert!(matches!(
        parse_credentials(b"{"),
        Err(CodexError::ParseCredentials)
    ));
}

#[test]
fn refused_tokens_are_refreshed_once() {
    let status = |code| HttpReply::Status {
        code,
        retry_after: None,
        body: "body".to_string(),
    };
    assert!(matches!(begin_fetch(), QuotaFetch::Ask { refreshed: false }));
    let refused = read_usage_reply(status(401));
    assert!(matches!(refused, Err(CodexError::AuthenticationRequired)));
    assert!(matches!(after_asking(false, refused), QuotaFetch::Refresh));
    assert!(matches!(
        after_refreshing(None),
        QuotaFetch::Ask { refreshed: true }
    ));
    assert!(matches!(
        after_asking(true, Err(CodexError::AuthenticationRequired)),
        QuotaFetch::Done(Err(CodexError::AuthenticationRequired))
    ));
    match read_refresh_reply(status(500)) {
        Err(CodexError::ApiRequest { url, message }) => {
            assert_eq!(url, CODEX_REFRESH_URL);
            assert_eq!(message, "body");
        }
        _ => panic!("an error of the service was expected"),
    }
    assert!(CodexError::AuthenticationRequired.message().contains("Codex"));
}

#[test]
fn new_tokens_are_written_where_the_old_ones_stood() {
    let credentials = json(
        r#"{"tokens":{"access_token":"a","refresh_token":"r","id_token":"i"},"last_refresh":"x"}"#,
    );
    let refreshed = json(r#"{"access_token":"a2","id_token":"i2"}"#);
    let edits = refresh_edits(&credentials, &refreshed, moment()).ok().expect("edits");
    let named: Vec<(Option<&str>, &str)> = edits
        .iter()
        .map(|edit| (edit.outer.as_deref(), edit.field.as_str()))
        .collect();
    assert!(named.contains(&(Some("tokens"), "access_token")));
    assert!(named.contains(&(Some("tokens"), "id_token")));
    assert!(named.contains(&(None, "last_refresh")));
    assert!(!named.contains(&(Some("tokens"), "refresh_token")));
    let last = edits.last().expect("edit");
    assert!(matches!(&last.value, EditValue::Text(t) if t == "2026-04-24T03:06:40+00:00"));
    assert!(refresh_edits(&credentials, &json("{}"), moment()).is_err());

    let renewed = apply_edits(credentials, &edits);
    assert_eq!(access_token(&renewed).ok().as_deref(), Some("a2"));
    match &renewed {
        Json::Object { text, .. } => assert_eq!(
            text,
            r#"{"last_refresh":"2026-04-24T03:06:40+00:00","tokens":{"access_token":"a2","id_token":"i2","refresh_token":"r"}}"#
        ),
        _ => panic!("an object was expected"),
    }
}

#[test]
fn numbers_may_be_written_as_texts() {
    let bits = |text: &str| {
        number_from_value(&json(text)).map(|n| n.and_then(|n| n.bits).map(f64::from_bits))
    };
    assert_eq!(bits("7.5"), Some(Some(7.5)));
    assert_eq!(bits("\"7.5\""), Some(Some(7.5)));
    assert_eq!(bits("true"), None);
}

#[test]
fn resets_are_times_or_seconds_from_now() {
    assert_eq!(
        unix_seconds_to_rfc3339(Some(0)).as_deref(),
        Some("1970-01-01T00:00:00+00:00")
    );
    assert_eq!(unix_seconds_to_rfc3339(None), None);
    assert_eq!(unix_seconds_to_rfc3339(Some(i64::MAX)), None);
    assert_eq!(
        window_reset_from_api(&json(r#"{"reset_at":60}"#), moment()).as_deref(),
        Some("1970-01-01T00:01:00+00:00")
    );
    assert_eq!(
        window_reset_from_api(&json(r#"{"reset_after_seconds":60}"#), moment()).as_deref(),
        Some("2026-04-24T03:07:40+00:00")
    );
    assert_eq!(window_reset_from_api(&json("{}"), moment()), None);
}
