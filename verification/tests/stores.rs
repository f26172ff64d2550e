use aswitch::plugin::{CredentialStore, CredentialStoreKind, Platform};
use aswitch::store::file::FileStore;
use aswitch::store::keychain::{
    delete_outcome, exists_outcome, format_attributes, linux_failure, password_of, read_outcome,
    request_args, secret_missing, trim_trailing_newline, write_args, write_outcome, KeychainRequest,
    KeychainStore, NOT_FOUND_STATUS,
};
use aswitch::store::{
    reads_live_credential, resolve_active_store, resolve_active_store_for_platform,
    ResolvedCredentialStore, StoreError, StoreResolveError,
};
use aswitch::text_map::TextMap;

fn file_store() -> CredentialStore {
    CredentialStore {
        kind: CredentialStoreKind::File,
        path: Some("~/.codex/auth.json".to_string()),
        permissions: Some(0o600),
        macos_service: None,
        macos_account: None,
        linux_schema: None,
        linux_attributes: TextMap::new(),
        linux_fallback_kind: None,
        linux_fallback_path: None,
        linux_fallback_permissions: None,
        allow_empty_active: false,
    }
}

fn keychain_store() -> CredentialStore {
    CredentialStore {
        kind: CredentialStoreKind::Keychain,
        path: None,
        permissions: None,
        macos_service: Some("Acme Code-credentials".to_string()),
        macos_account: Some("amos".to_string()),
        ..file_store()
    }
}

#[test]
fn resolves_plain_file_store() {
    let resolved = resolve_active_store_for_platform(
        &file_store(),
        Platform::Macos,
        "/tmp/aswitch-home",
    )
    .ok()
    .expect("resolve");

    match resolved {
        ResolvedCredentialStore::File(store) => {
            assert_eq!(store.path(), "/tmp/aswitch-home/.codex/auth.json");
            assert_eq!(store.permissions(), 0o600);
        }
        _ => panic!("unexpected store type"),
    }
}

#[test]
fn linux_keychain_fallback_resolves_to_file_store() {
    let mut manifest_store = keychain_store();
    manifest_store.macos_account = Some("${env:USER}".to_string());
    manifest_store.linux_fallback_kind = Some(CredentialStoreKind::File);
    manifest_store.linux_fallback_path = Some("~/.acme/.credentials.json".to_string());
    manifest_store.linux_fallback_permissions = Some(0o600);

    let resolved = resolve_active_store_for_platform(
        &manifest_store,
        Platform::Linux,
        "/tmp/aswitch-home",
    )
    .ok()
    .expect("resolve");

    match resolved {
        ResolvedCredentialStore::File(store) => {
            assert_eq!(store.path(), "/tmp/aswitch-home/.acme/.credentials.json");
            assert_eq!(store.permissions(), 0o600);
        }
        _ => panic!("unexpected store type"),
    }
}

#[test]
fn macos_keychain_store_resolves_with_allow_empty_active() {
    let mut manifest_store = keychain_store();
    manifest_store.linux_schema = Some("org.freedesktop.Secret.Generic".to_string());
    manifest_store
        .linux_attributes
        .insert("service".to_string(), "acme-code".to_string());
    manifest_store.allow_empty_active = true;

    let resolved = resolve_active_store_for_platform(
        &manifest_store,
        Platform::Macos,
        "/tmp/aswitch-home",
    )
    .ok()
    .expect("resolve");

    match resolved {
        ResolvedCredentialStore::Keychain(store) => {
            assert_eq!(store.macos_service(), Some("Acme Code-credentials"));
            assert_eq!(store.macos_account(), Some("amos"));
            assert!(store.allow_empty_active());
        }
        _ => panic!("unexpected store type"),
    }
}

#[test]
fn a_store_that_lacks_something_is_not_resolved() {
    let mut no_path = file_store();
    no_path.path = None;
    assert!(matches!(
        resolve_active_store_for_platform(&no_path, Platform::Linux, "/home/me"),
        Err(StoreResolveError::MissingField(_))
    ));
    assert!(matches!(
        resolve_active_store(&file_store(), "plan9", Some("/home/me".to_string())),
        Err(StoreResolveError::UnsupportedPlatform)
    ));
    assert!(matches!(
        resolve_active_store(&file_store(), "linux", None),
        Err(StoreResolveError::Paths(_))
    ));
    assert!(matches!(
        resolve_active_store_for_platform(&keychain_store(), Platform::Windows, "/home/me"),
        Err(StoreResolveError::UnsupportedPlatform)
    ));
}

#[test]
fn a_file_store_writes_beside_its_file() {
    let store = FileStore::new("/home/me/.codex/auth.json".to_string(), 0o600);
    let temp = store.temp_path(7);
    assert!(temp.starts_with("/home/me/.codex/"));
    assert_ne!(temp, store.path());
    assert!(matches!(
        store.read_failure(true),
        StoreError::NotFound { path } if path == "/home/me/.codex/auth.json"
    ));
    assert!(matches!(store.read_failure(false), StoreError::Read { .. }));
    assert!(reads_live_credential(true, false));
}

#[test]
fn an_item_of_the_linux_keychain_has_a_schema_and_no_service() {
    let store = KeychainStore::linux(
        "org.freedesktop.Secret.Generic".to_string(),
        TextMap::new(),
        false,
    );
    assert_eq!(store.macos_service(), None);
    assert_eq!(store.linux_schema(), Some("org.freedesktop.Secret.Generic"));
    assert!(!StoreError::UnsupportedKeychainBackend.message().is_empty());
}

#[test]
fn the_status_of_the_keychain_program_decides() {
    let read = |status, empty| {
        read_outcome("s", "a", empty, status, b"secret\n".to_vec(), "bad")
    };
    assert_eq!(read(Some(0), false).ok(), Some(b"secret".to_vec()));
    assert_eq!(read(Some(NOT_FOUND_STATUS), true).ok(), Some(vec![]));
    assert!(matches!(
        read(Some(NOT_FOUND_STATUS), false),
        Err(StoreError::KeychainItemNotFound { .. })
    ));
    match read(Some(1), true) {
        Err(StoreError::CommandFailure { stderr, .. }) => assert_eq!(stderr, "bad"),
        _ => panic!("a failure was expected"),
    }
    assert_eq!(exists_outcome("s", "a", Some(0), "").ok(), Some(true));
    assert_eq!(
        exists_outcome("s", "a", Some(NOT_FOUND_STATUS), "").ok(),
        Some(false)
    );
    assert!(write_outcome("s", "a", Some(0), "").is_ok());
    assert!(write_outcome("s", "a", None, "").is_err());
    assert!(delete_outcome("s", "a", Some(NOT_FOUND_STATUS), "").is_ok());
    assert_eq!(trim_trailing_newline(b"a\r\n".to_vec()), b"a".to_vec());
    assert_eq!(trim_trailing_newline(b"a".to_vec()), b"a".to_vec());
}

#[test]
fn requests_to_the_keychain_name_the_item() {
    let args = request_args(KeychainRequest::Read, "service", "account");
    assert!(args.contains(&"service".to_string()));
    assert!(args.contains(&"account".to_string()));
    assert!(write_args("service", "account", "secret").contains(&"secret".to_string()));
    assert_eq!(password_of("ü".as_bytes().to_vec()).ok().as_deref(), Some("ü"));
    assert!(matches!(
        password_of(vec![0xff]),
        Err(StoreError::InvalidKeychainEncoding)
    ));
}

#[test]
fn secrets_are_found_by_their_attributes() {
    let mut attributes = TextMap::new();
    attributes.insert("b".to_string(), "2".to_string());
    attributes.insert("a".to_string(), "1".to_string());
    let text = format_attributes(&attributes);
    assert!(text.contains("a=1"));
    assert!(text.find("a=1") < text.find("b=2"));
    assert_eq!(secret_missing(&attributes, true).ok(), Some(vec![]));
    assert!(matches!(
        secret_missing(&attributes, false),
        Err(StoreError::SecretServiceItemNotFound { .. })
    ));
    assert!(matches!(
        linux_failure("read", "schema", &attributes, "no"),
        StoreError::SecretServiceFailure { .. }
    ));
}
