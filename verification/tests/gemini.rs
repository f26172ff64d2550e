use aswitch::gemini::{
    code_assist_info, current_access_token, current_credentials_path, info_request,
    quota_from_buckets, quota_request, read_buckets, GeminiError, MethodRequest,
    CODE_ASSIST_ENDPOINT,
};
use aswitch::json::{Json, Number};

fn json(text: &str) -> Json {
    Json::parse(text).ok().expect("json")
}

fn number(value: f64) -> Number {
    match json(&format!("{value:?}")) {
        Json::Number(n) => n,
        _ => panic!("not a number"),
    }
}

#[test]
fn credentials_stand_under_the_home_of_the_program() {
    assert_eq!(
        current_credentials_path(&Some("/cli".to_string()), &None).ok().expect("path"),
        "/cli/.gemini/oauth_creds.json"
    );
    assert_eq!(
        current_credentials_path(&Some(String::new()), &Some("/home/me".to_string()))
            .ok()
            .expect("path"),
        "/home/me/.gemini/oauth_creds.json"
    );
    assert!(matches!(
        current_credentials_path(&None, &None),
        Err(GeminiError::Paths(_))
    ));
}

#[test]
fn an_access_token_counts_until_it_expires() {
    let token = Some("tok".to_string());
    assert_eq!(
        current_access_token(&token, Some(31_001), 1_000).ok().expect("token"),
        "tok"
    );
    assert_eq!(
        current_access_token(&token, None, 1_000).ok().expect("token"),
        "tok"
    );
    assert!(matches!(
        current_access_token(&token, Some(31_000), 1_000),
        Err(GeminiError::AccessTokenExpired)
    ));
    assert!(matches!(
        current_access_token(&None, None, 0),
        Err(GeminiError::MissingAccessToken)
    ));
}

#[test]
fn requests_name_their_method_and_what_they_send() {
    let headers = vec![
        ("Content-Type".to_string(), "application/json".to_string()),
        ("Authorization".to_string(), "Bearer tok".to_string()),
    ];
    let fields = |request: &MethodRequest| -> Vec<(Option<String>, String, String)> {
        request
            .body
            .iter()
            .map(|part| (part.outer.clone(), part.field.clone(), part.value.clone()))
            .collect()
    };
    let metadata = |field: &str, value: &str| {
        (Some("metadata".to_string()), field.to_string(), value.to_string())
    };
    let info = info_request("tok");
    assert_eq!(info.head.url, format!("{CODE_ASSIST_ENDPOINT}:loadCodeAssist"));
    assert_eq!(info.head.headers, headers);
    assert_eq!(
        fields(&info),
        vec![
            metadata("ideType", "IDE_UNSPECIFIED"),
            metadata("platform", "PLATFORM_UNSPECIFIED"),
            metadata("pluginType", "GEMINI"),
        ]
    );
    let quota = quota_request("tok", "proj");
    assert_eq!(quota.head.url, format!("{CODE_ASSIST_ENDPOINT}:retrieveUserQuota"));
    assert_eq!(quota.head.headers, headers);
    assert_eq!(
        fields(&quota),
        vec![(None, "project".to_string(), "proj".to_string())]
    );
}

#[test]
fn an_answer_names_the_project_and_the_tier() {
    let info = code_assist_info(&json(
        r#"{"cloudaicompanionProject":"proj","currentTier":{"name":"Free"}}"#,
    ));
    assert_eq!(info.project_id.as_deref(), Some("proj"));
    assert_eq!(info.tier_name.as_deref(), Some("Free"));
}

#[test]
fn buckets_are_counted_and_averaged() {
    let value = json(
        r#"{"buckets":[
            {"remainingFraction":0.5,"resetTime":"2026-04-25T00:00:00Z"},
            {"remainingFraction":1.0,"resetTime":"2026-04-26T00:00:00Z"},
            {"resetTime":"2026-04-27T00:00:00Z"}
        ]}"#,
    );
    let buckets = read_buckets(&value).expect("buckets");
    assert_eq!(buckets.count, 3);
    let fractions: Vec<f64> = buckets.fractions.iter().map(|b| f64::from_bits(*b)).collect();
    assert_eq!(fractions, vec![0.5, 1.0]);
    assert_eq!(buckets.latest_reset.as_deref(), Some("2026-04-26T00:00:00Z"));
    assert!(read_buckets(&json("{}")).is_none());

    let left = fractions.iter().sum::<f64>() / fractions.len() as f64 * 100.0;
    let quota = quota_from_buckets(
        "proj",
        &Some("Free".to_string()),
        &Some(buckets),
        &Some((number(left), number(100.0 - left))),
    );
    assert!(matches!(quota.get("project_id"), Some(Json::Text(p)) if p == "proj"));
    match quota.get("remaining_percent") {
        Some(Json::Number(n)) => assert_eq!(n.bits.map(f64::from_bits), Some(75.0)),
        _ => panic!("a percentage was expected"),
    }
    let counted = (0..quota.len()).any(|i| match quota.value_at(i) {
        Json::Number(n) => n.text == "3" && n.unsigned == Some(3),
        _ => false,
    });
    assert!(counted);
}
