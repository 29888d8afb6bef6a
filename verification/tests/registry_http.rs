use cista::registry_http::{
    accept_response, package_path, Method, RegistryHttpClient, Request, Transport,
};
use std::cell::RefCell;
use std::collections::HashMap;

#[derive(Default)]
struct HermeticRegistry {
    archives: RefCell<HashMap<String, Vec<u8>>>,
}

impl Transport for HermeticRegistry {
    fn execute(&self, request: Request) -> Result<Vec<u8>, String> {
        if request.authorization.as_deref() != Some("Bearer secret") {
            return Err("registry request failed: 401 Unauthorized".to_owned());
        }
        let mut archives = self.archives.borrow_mut();
        match request.method {
            Method::Put => {
                if archives.contains_key(&request.url) {
                    return Err("registry request failed: 409 Conflict".to_owned());
                }
                archives.insert(request.url, request.body);
                Ok(Vec::new())
            }
            Method::Get => archives
                .get(&request.url)
                .cloned()
                .ok_or_else(|| "registry request failed: 404 Not Found".to_owned()),
        }
    }
}

struct FailingTransport;

impl Transport for FailingTransport {
    fn execute(&self, _request: Request) -> Result<Vec<u8>, String> {
        Err("registry request failed for https://cista.dev/v1/packages/tool/1.2.3/archive: connection refused".to_owned())
    }
}

#[test]
fn rejects_credentials_over_plain_http() {
    let error = RegistryHttpClient::new("http://cista.dev", Some("secret"))
        .err()
        .expect("plain HTTP credentials must fail closed");
    assert!(error.contains("insecure HTTP"));
}

#[test]
fn rejects_non_origin_registry_urls() {
    for base_url in [
        "https://user@cista.dev",
        "https://cista.dev/api",
        "https://cista.dev?mirror=other",
        "https://cista.dev/",
    ] {
        let error = RegistryHttpClient::new(base_url, None)
            .err()
            .expect("registry URL must be a bare origin");
        assert!(error.contains("bare HTTP(S) origin"), "{base_url}: {error}");
    }
}

#[test]
fn authenticated_publish_fetch_round_trip_is_immutable() {
    let registry = HermeticRegistry::default();
    let client = RegistryHttpClient::new("https://cista.dev", Some("secret"))
        .expect("authenticated registry client");
    let archive = b"cista package archive".to_vec();

    client.publish_package(&registry, "tool", "1.2.3", archive.clone()).expect("publish archive");
    assert_eq!(client.fetch_package(&registry, "tool", "1.2.3").unwrap(), archive);
    assert!(client
        .publish_package(&registry, "tool", "1.2.3", Vec::new())
        .unwrap_err()
        .contains("409"));
}

#[test]
fn missing_or_wrong_auth_fails_closed() {
    let registry = HermeticRegistry::default();
    let anonymous = RegistryHttpClient::new("https://cista.dev", None).unwrap();
    let wrong = RegistryHttpClient::new("https://cista.dev", Some("wrong")).unwrap();

    assert!(anonymous.fetch_package(&registry, "tool", "1.2.3").unwrap_err().contains("401"));
    assert!(wrong.fetch_package(&registry, "tool", "1.2.3").unwrap_err().contains("401"));
}

#[test]
fn package_identity_cannot_escape_api_path() {
    let client = RegistryHttpClient::new("https://cista.dev", Some("secret")).unwrap();
    assert!(client.fetch_package(&HermeticRegistry::default(), "../tool", "1.2.3").is_err());
}

#[test]
fn rejects_empty_bearer_token() {
    let error = RegistryHttpClient::new("https://cista.dev", Some(""))
        .err()
        .expect("empty bearer token must be rejected");
    assert!(error.contains("must not be empty"));
}

#[test]
fn rejects_whitespace_only_token() {
    let error = RegistryHttpClient::new("https://cista.dev", Some("  "))
        .err()
        .expect("whitespace-only token must be rejected");
    assert!(error.contains("must not be empty"));
}

#[test]
fn rejects_identity_with_at_sign() {
    let client = RegistryHttpClient::new("https://cista.dev", Some("secret")).unwrap();
    let registry = HermeticRegistry::default();
    assert!(client.fetch_package(&registry, "tool@evil", "1.2.3").is_err());
    assert!(client.fetch_package(&registry, "tool", "1.2.3@evil").is_err());
}

#[test]
fn rejects_identity_with_path_separators() {
    let client = RegistryHttpClient::new("https://cista.dev", Some("secret")).unwrap();
    let registry = HermeticRegistry::default();
    assert!(client.fetch_package(&registry, "tool/../evil", "1.2.3").is_err());
    assert!(client.fetch_package(&registry, "tool", "1.2.3/../evil").is_err());
}

#[test]
fn transport_failure_is_surfaced() {
    let client = RegistryHttpClient::new("https://cista.dev", Some("secret"))
        .expect("transport should construct");
    let error = client
        .fetch_package(&FailingTransport, "tool", "1.2.3")
        .expect_err("transport failure must propagate");
    assert!(error.contains("connection refused"));
}

#[test]
fn requests_carry_the_origin_path_and_bearer_token() {
    let client = RegistryHttpClient::new("https://cista.dev", Some("secret")).unwrap();
    let request = client.package_request(Method::Get, "tool", "1.2.3", Vec::new()).unwrap();
    assert_eq!(request.url, "https://cista.dev/v1/packages/tool/1.2.3/archive");
    assert_eq!(request.authorization.as_deref(), Some("Bearer secret"));
    assert_eq!(package_path("tool", "1.2.3").unwrap(), "/v1/packages/tool/1.2.3/archive");
    assert_eq!(
        client.summary(),
        "RegistryHttpClient { base_url: \"https://cista.dev\", authenticated: true, .. }"
    );
    assert!(RegistryHttpClient::new("http://localhost:8080", None).is_ok());
    assert!(RegistryHttpClient::new("not a url", None).is_err());
}

#[test]
fn oversized_responses_are_refused() {
    assert_eq!(accept_response(vec![1, 2, 3], "u").unwrap(), vec![1, 2, 3]);
    let big = vec![0u8; 64 * 1024 * 1024 + 1];
    assert_eq!(
        accept_response(big, "https://cista.dev/x").unwrap_err(),
        "registry response from https://cista.dev/x exceeds 67108864 bytes"
    );
}
