use aswitch::identity::{
    decode_jwt_payload, extract, extract_with_home_dir, identity_files, object_keys,
    value_to_string, FileText, JwtDecodeError,
};
use aswitch::json::{get_json_path, Json};
use aswitch::plugin::{
    CredentialStore, CredentialStoreKind, IdentityExtract, IdentitySource, LoginConfig, Manifest,
    Platform, ReadyMarkerKind, ValueSource,
};
use aswitch::text_map::TextMap;
use base64::engine::general_purpose::URL_SAFE_NO_PAD;
use base64::Engine;

fn json(text: &str) -> Json {
    Json::parse(text).ok().expect("json")
}

fn text_at(value: Option<&Json>) -> Option<&str> {
    match value {
        Some(Json::Text(text)) => Some(text.as_str()),
        _ => None,
    }
}

fn rule(field: &str, source: IdentitySource) -> IdentityExtract {
    IdentityExtract {
        field: field.to_string(),
        source,
        json_file_path: None,
        json_pointer: None,
        fallback_source: None,
        fallback_json_file_path: None,
        fallback_json_pointer: None,
        jwt_from: None,
        jwt_json_pointer: None,
        claim_pointer: None,
        fallback_jwt_from: None,
        fallback_jwt_json_pointer: None,
        fallback_claim_pointer: None,
        json_top_keys_from: None,
        fallback_json_top_keys_from: None,
        literal: None,
        fallback_literal: None,
    }
}

fn manifest(id: &str, rules: Vec<IdentityExtract>) -> Manifest {
    Manifest {
        id: id.to_string(),
        display_name: id.to_string(),
        version: "1.0.0".to_string(),
        author: "test".to_string(),
        description: "test".to_string(),
        platforms: vec![Platform::Macos],
        credential_store: CredentialStore {
            kind: CredentialStoreKind::File,
            path: Some("~/.test/auth.json".to_string()),
            permissions: Some(0o600),
            macos_service: None,
            macos_account: None,
            linux_schema: None,
            linux_attributes: TextMap::new(),
            linux_fallback_kind: None,
            linux_fallback_path: None,
            linux_fallback_permissions: None,
            allow_empty_active: false,
        },
        session_activation: None,
        aux_files: vec![],
        identity_extract: rules,
        login: LoginConfig {
            cmd: vec!["test".to_string()],
            ready_marker_kind: ReadyMarkerKind::File,
            ready_marker_timeout_s: 30,
            ready_marker_path: Some("~/.test/auth.json".to_string()),
        },
        usage_source: vec![],
    }
}

fn from_file(field: &str, path: &str, pointer: &str) -> IdentityExtract {
    let mut rule = rule(field, IdentitySource::JsonFile);
    rule.json_file_path = Some(path.to_string());
    rule.json_pointer = Some(pointer.to_string());
    rule
}

fn from_claim(field: &str, token: &str, claim: &str) -> IdentityExtract {
    let mut rule = rule(field, IdentitySource::JwtClaim);
    rule.jwt_from = Some(ValueSource::JsonValue);
    rule.jwt_json_pointer = Some(token.to_string());
    rule.claim_pointer = Some(claim.to_string());
    rule
}

fn make_jwt(payload: &str) -> String {
    let header = URL_SAFE_NO_PAD.encode(br#"{"alg":"none","typ":"JWT"}"#);
    let payload = URL_SAFE_NO_PAD.encode(payload.as_bytes());
    format!("{header}.{payload}.signature")
}

#[test]
fn get_json_path_supports_dotted_paths_and_array_indexes() {
    let value = json(r#"{"oauthAccount":{"emails":[{"address":"amos@example.com"}]}}"#);

    assert_eq!(
        text_at(get_json_path(&value, "oauthAccount.emails[0].address")),
        Some("amos@example.com")
    );
    assert!(get_json_path(&value, "oauthAccount.missing").is_none());
}

#[test]
fn extract_supports_json_value_source() {
    let mut plan = rule("plan", IdentitySource::JsonValue);
    plan.json_pointer = Some("plan".to_string());
    let extraction = extract_with_home_dir(
        &manifest("json-value", vec![plan]),
        br#"{"plan":"plus"}"#,
        "/tmp/aswitch-home",
        &TextMap::new(),
    );

    assert!(extraction.identity.email.is_none());
    assert!(extraction.identity.org_name.is_none());
    assert_eq!(extraction.identity.plan.as_deref(), Some("plus"));
    assert!(extraction.identity.extra.is_empty());
    assert!(extraction.warnings.is_empty());
}

#[test]
fn official_manifests_extract_expected_identity() {
    let home_dir = "/tmp/aswitch-home";
    let mut files = TextMap::new();
    files.insert(
        format!("{home_dir}/.acme/.acme.json"),
        FileText::Contents(
            r#"{"oauthAccount":{"emailAddress":"amos@example.com","organizationName":"Amos","organizationUuid":"org_123"}}"#
                .to_string(),
        ),
    );
    files.insert(
        format!("{home_dir}/.gemini/settings.json"),
        FileText::Contents("{}".to_string()),
    );

    let path = "~/.acme/.acme.json";
    let assistant = manifest(
        "acme-code",
        vec![
            from_file("email", path, "oauthAccount.emailAddress"),
            from_file("org_name", path, "oauthAccount.organizationName"),
            from_file("org_uuid", path, "oauthAccount.organizationUuid"),
        ],
    );
    let found = extract_with_home_dir(&assistant, br#"{}"#, home_dir, &files);
    assert_eq!(found.identity.email.as_deref(), Some("amos@example.com"));
    assert_eq!(found.identity.org_name.as_deref(), Some("Amos"));
    assert_eq!(text_at(found.identity.extra.get("org_uuid")), Some("org_123"));

    let token = "tokens.id_token";
    let codex = manifest(
        "codex",
        vec![
            from_claim("email", token, "email"),
            from_claim("plan", token, "https://api.openai.com/auth.chatgpt_plan_type"),
            from_claim(
                "chatgpt_account_id",
                token,
                "https://api.openai.com/auth.chatgpt_account_id",
            ),
            from_claim(
                "chatgpt_user_id",
                token,
                "https://api.openai.com/auth.chatgpt_user_id",
            ),
        ],
    );
    let jwt = make_jwt(
        r#"{"email":"amos@example.com","https://api.openai.com/auth.chatgpt_account_id":"acct_123","https://api.openai.com/auth.chatgpt_user_id":"user_123","https://api.openai.com/auth.chatgpt_plan_type":"plus"}"#,
    );
    let credential = format!(r#"{{"tokens":{{"id_token":"{jwt}"}}}}"#);
    let found = extract_with_home_dir(&codex, credential.as_bytes(), home_dir, &files);
    assert_eq!(found.identity.email.as_deref(), Some("amos@example.com"));
    assert_eq!(found.identity.plan.as_deref(), Some("plus"));
    assert_eq!(
        text_at(found.identity.extra.get("chatgpt_account_id")),
        Some("acct_123")
    );
    assert_eq!(
        text_at(found.identity.extra.get("chatgpt_user_id")),
        Some("user_123")
    );

    let mut email = from_file("email", "~/.gemini/settings.json", "security.auth.email");
    email.fallback_source = Some(IdentitySource::JwtClaim);
    email.fallback_jwt_from = Some(ValueSource::JsonValue);
    email.fallback_jwt_json_pointer = Some("id_token".to_string());
    email.fallback_claim_pointer = Some("email".to_string());
    let gemini = manifest("gemini", vec![email]);
    let credential = format!(
        r#"{{"id_token":"{}"}}"#,
        make_jwt(r#"{"email":"gemini@example.com"}"#)
    );
    let found = extract_with_home_dir(&gemini, credential.as_bytes(), home_dir, &files);
    assert_eq!(found.identity.email.as_deref(), Some("gemini@example.com"));

    let mut providers = rule("providers", IdentitySource::JsonTopKeys);
    providers.json_top_keys_from = Some(ValueSource::JsonValue);
    let opencode = manifest(
        "opencode",
        vec![from_claim("email", "anthropic.access", "email"), providers],
    );
    let credential = format!(
        r#"{{"openai":{{"api_key":"sk-test"}},"anthropic":{{"access":"{}"}}}}"#,
        make_jwt(r#"{"email":"opencode@example.com"}"#)
    );
    let found = extract_with_home_dir(&opencode, credential.as_bytes(), home_dir, &files);
    assert_eq!(found.identity.email.as_deref(), Some("opencode@example.com"));
    assert_eq!(
        text_at(found.identity.extra.get("providers")),
        Some("anthropic, openai")
    );
}

#[test]
fn only_the_files_that_rules_name_are_read() {
    let rules = vec![from_file("email", "~/a.json", "email")];
    let manifest = manifest("demo", rules);
    assert_eq!(identity_files(&manifest, "/home/me"), vec!["/home/me/a.json"]);

    let mut files = TextMap::new();
    files.insert(
        "/home/me/a.json".to_string(),
        FileText::Contents(r#"{"email":"a@example.com"}"#.to_string()),
    );
    let alone = extract(&manifest, b"{}", "/home/me", &files);
    files.insert(
        "/home/me/b.json".to_string(),
        FileText::Contents(r#"{"email":"b@example.com"}"#.to_string()),
    );
    let both = extract(&manifest, b"{}", "/home/me", &files);
    assert_eq!(alone.email, both.email);
    assert_eq!(alone.email.as_deref(), Some("a@example.com"));
}

#[test]
fn what_cannot_be_read_is_warned_about() {
    let manifest = manifest("demo", vec![from_file("email", "/a.json", "email")]);
    let warnings = |file: Option<FileText>| {
        let mut files = TextMap::new();
        if let Some(file) = file {
            files.insert("/a.json".to_string(), file);
        }
        extract_with_home_dir(&manifest, b"", "/home/me", &files).warnings
    };
    assert!(warnings(None).is_empty());
    assert!(warnings(Some(FileText::NotFound)).is_empty());
    assert_eq!(
        warnings(Some(FileText::Failed("denied".to_string()))),
        vec!["failed to read json file /a.json: denied"]
    );
    assert!(warnings(Some(FileText::Contents("{".to_string())))[0]
        .starts_with("failed to parse json file /a.json: "));
}

#[test]
fn the_payload_of_a_token_is_its_middle_part() {
    let payload = decode_jwt_payload(&make_jwt(r#"{"a":1}"#)).ok().expect("payload");
    assert!(matches!(payload.field("a"), Some(Json::Number(n)) if n.signed == Some(1)));
    assert!(matches!(
        decode_jwt_payload("one"),
        Err(JwtDecodeError::InvalidFormat)
    ));
    assert!(matches!(
        decode_jwt_payload("a.*.c"),
        Err(JwtDecodeError::Base64)
    ));
    let no_json = format!("a.{}.c", URL_SAFE_NO_PAD.encode(b"nope"));
    assert!(matches!(decode_jwt_payload(&no_json), Err(JwtDecodeError::Json)));
}

#[test]
fn values_are_told_as_texts() {
    assert_eq!(value_to_string(&json("\"a\"")).as_deref(), Some("a"));
    assert_eq!(value_to_string(&json("12")).as_deref(), Some("12"));
    assert_eq!(value_to_string(&json("true")).as_deref(), Some("true"));
    assert_eq!(value_to_string(&json("null")), None);
    let keys = object_keys(&json(r#"{"b":1,"a":2}"#));
    assert_eq!(text_at(keys.as_ref()), Some("a, b"));
    assert!(object_keys(&json("[]")).is_none());
}
