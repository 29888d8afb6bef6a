use cista::credentials::{default_path, remove, store, token, CredentialFile};

#[test]
fn credential_round_trip_is_scoped_by_https_origin() {
    let mut file = CredentialFile::default();
    store(&mut file, "https://cista.dev", "first").unwrap();
    store(&mut file, "https://packages.example", "other").unwrap();
    store(&mut file, "https://cista.dev", "replacement").unwrap();

    assert_eq!(token(&file, "https://cista.dev").unwrap().as_deref(), Some("replacement"));
    assert_eq!(token(&file, "https://packages.example").unwrap().as_deref(), Some("other"));
    assert!(remove(&mut file, "https://cista.dev").unwrap());
    assert_eq!(token(&file, "https://cista.dev").unwrap(), None);
    assert!(!remove(&mut file, "https://cista.dev").unwrap());
}

#[test]
fn credentials_reject_plain_http_and_empty_tokens() {
    let mut file = CredentialFile::default();
    assert!(store(&mut file, "http://cista.dev", "secret").is_err());
    assert!(store(&mut file, "https://user@cista.dev", "secret").is_err());
    assert!(store(&mut file, "https://cista.dev/path", "secret").is_err());
    assert!(store(&mut file, "https://cista.dev", " ").is_err());
    assert!(file.registry.is_empty());
}

#[test]
fn credential_origins_must_be_bare_https_origins() {
    let file = CredentialFile::default();
    assert_eq!(
        token(&file, "https://cista.dev/").unwrap_err(),
        "registry credential origin must be a bare HTTPS origin without userinfo, path, query, or trailing slash"
    );
    assert!(token(&file, "").is_err());
    assert_eq!(
        default_path(Some("/home/me")).unwrap(),
        "/home/me/.faber/credentials.toml"
    );
    assert!(default_path(None).is_err());
}
