use infrahub_credential_helper::requests::{
    bearer_header, request_headers, AuthPlan, Header, TlsSetup, CREDENTIAL_QUERY,
    CREDENTIAL_QUERY_OPERATION,
};
use infrahub_credential_helper::InfrahubConfig;

fn test_config(
    api_token: Option<&str>,
    username: Option<&str>,
    password: Option<&str>,
) -> InfrahubConfig {
    InfrahubConfig {
        address: "http://test:8000".to_string(),
        api_token: api_token.map(String::from),
        username: username.map(String::from),
        password: password.map(String::from),
        proxy: None,
        tls_insecure: false,
        tls_ca_file: None,
        timeout_secs: 10,
    }
}

fn header_pair(plan: AuthPlan) -> Option<(String, String)> {
    match plan {
        AuthPlan::Send(h) => Some((h.name, h.value)),
        _ => None,
    }
}

#[test]
fn resolve_auth_header_with_token() {
    let config = test_config(Some("mytoken"), None, None);
    let header = header_pair(config.auth_plan());
    assert_eq!(
        header,
        Some(("X-INFRAHUB-KEY".to_string(), "mytoken".to_string()))
    );
}

#[test]
fn resolve_auth_header_with_no_credentials() {
    let config = test_config(None, None, None);
    assert!(matches!(config.auth_plan(), AuthPlan::Anonymous));
}

#[test]
fn resolve_auth_header_token_takes_priority() {
    let config = test_config(Some("mytoken"), Some("admin"), Some("pass"));
    let header = header_pair(config.auth_plan());
    assert_eq!(
        header,
        Some(("X-INFRAHUB-KEY".to_string(), "mytoken".to_string()))
    );
}

#[test]
fn resolve_auth_header_logs_in_with_password() {
    let mut config = test_config(None, Some("admin"), Some("pass"));
    config.address = "http://test:8000//".to_string();
    match config.auth_plan() {
        AuthPlan::Login { url, username, password } => {
            assert_eq!(url, "http://test:8000/api/auth/login");
            assert_eq!(username, "admin");
            assert_eq!(password, "pass");
        }
        other => panic!("unexpected plan {other:?}"),
    }
}

#[test]
fn resolve_auth_header_username_alone_is_anonymous() {
    let config = test_config(None, Some("admin"), None);
    assert!(matches!(config.auth_plan(), AuthPlan::Anonymous));
}

#[test]
fn bearer_header_from_login_reply() {
    let h = bearer_header(Some("abc".to_string())).unwrap();
    assert_eq!(h.name, "Authorization");
    assert_eq!(h.value, "Bearer abc");
    assert_eq!(
        bearer_header(None).unwrap_err(),
        "Authentication response missing access_token"
    );
}

#[test]
fn graphql_url_trims_trailing_slashes() {
    let mut config = test_config(None, None, None);
    assert_eq!(config.graphql_url(), "http://test:8000/graphql/main");
    config.address = "http://test:8000/".to_string();
    assert_eq!(config.graphql_url(), "http://test:8000/graphql/main");
    config.address = "http://test:8000/infrahub///".to_string();
    assert_eq!(config.graphql_url(), "http://test:8000/infrahub/graphql/main");
}

#[test]
fn request_headers_carry_tracker_and_auth() {
    let plain = request_headers(None);
    assert_eq!(plain.len(), 2);
    assert_eq!(plain[0].name, "Content-Type");
    assert_eq!(plain[0].value, "application/json");
    assert_eq!(plain[1].name, "X-Infrahub-Tracker");
    assert_eq!(plain[1].value, "infrahub-git-credential-helper");
    let auth = Header { name: "X-INFRAHUB-KEY".to_string(), value: "t".to_string() };
    let with_auth = request_headers(Some(auth));
    assert_eq!(with_auth.len(), 3);
    assert_eq!(with_auth[2].name, "X-INFRAHUB-KEY");
    assert_eq!(with_auth[2].value, "t");
}

#[test]
fn tls_setup_choices() {
    let mut config = test_config(None, None, None);
    assert!(matches!(config.tls_setup(), TlsSetup::PlatformRoots));
    config.tls_ca_file = Some("/ca.pem".to_string());
    match config.tls_setup() {
        TlsSetup::CustomRoots(f) => assert_eq!(f, "/ca.pem"),
        other => panic!("unexpected setup {other:?}"),
    }
    config.tls_insecure = true;
    assert!(matches!(config.tls_setup(), TlsSetup::NoVerification));
}

#[test]
fn credential_query_names_its_operation() {
    assert_eq!(CREDENTIAL_QUERY_OPERATION, "GetRepoCredential");
    assert!(CREDENTIAL_QUERY.starts_with("query GetRepoCredential($location: String!)"));
    assert!(CREDENTIAL_QUERY.contains("... on CorePasswordCredential"));
}
