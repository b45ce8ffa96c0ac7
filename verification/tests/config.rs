use infrahub_credential_helper::config::{
    is_truthy_flag, parse_seconds, timeout_setting, tls_insecure_setting, ConfigFile,
    Environment, Failure, InfrahubConfig, DEFAULT_TIMEOUT_SECS,
};

fn environment() -> Environment {
    Environment {
        internal_address: None,
        address: None,
        api_token: None,
        username: None,
        password: None,
        proxy: None,
        tls_insecure: None,
        tls_ca_file: None,
        config_file: None,
        timeout: None,
    }
}

fn toml_address(address: &str) -> ConfigFile {
    ConfigFile::Parsed(Some(address.to_string()))
}

#[test]
fn config_env_var_overrides_everything() {
    let mut env = environment();
    env.internal_address = Some("http://env:8000".to_string());
    assert_eq!(InfrahubConfig::config_file_to_read(&env, Some("/tmp/test.toml")), None);
    let config = InfrahubConfig::from_sources(env, toml_address("http://toml:9000")).unwrap();
    assert_eq!(config.address, "http://env:8000");
}

#[test]
fn config_falls_back_to_toml() {
    let env = environment();
    assert_eq!(
        InfrahubConfig::config_file_to_read(&env, Some("/tmp/test.toml")),
        Some("/tmp/test.toml".to_string())
    );
    let config = InfrahubConfig::from_sources(env, toml_address("http://toml:9000")).unwrap();
    assert_eq!(config.address, "http://toml:9000");
}

#[test]
fn config_api_token_from_env() {
    let mut env = environment();
    env.internal_address = Some("http://test:8000".to_string());
    env.api_token = Some("secret123".to_string());
    let config = InfrahubConfig::from_sources(env, ConfigFile::Unreadable).unwrap();
    assert_eq!(config.api_token.as_deref(), Some("secret123"));
}

#[test]
fn config_username_password_from_env() {
    let mut env = environment();
    env.internal_address = Some("http://test:8000".to_string());
    env.username = Some("admin".to_string());
    env.password = Some("infrahub".to_string());
    let config = InfrahubConfig::from_sources(env, ConfigFile::Unreadable).unwrap();
    assert_eq!(config.username.as_deref(), Some("admin"));
    assert_eq!(config.password.as_deref(), Some("infrahub"));
}

#[test]
fn config_errors_when_no_address_available() {
    let result = InfrahubConfig::from_sources(environment(), ConfigFile::Unreadable);
    assert!(result.is_err());
}

#[test]
fn config_errors_on_toml_without_address() {
    let result = InfrahubConfig::from_sources(environment(), ConfigFile::Parsed(None));
    assert!(result.is_err());
}

#[test]
fn config_no_address_message() {
    let err = InfrahubConfig::from_sources(environment(), ConfigFile::Parsed(None))
        .err()
        .unwrap();
    assert_eq!(
        err,
        "No Infrahub server address configured. Set INFRAHUB_INTERNAL_ADDRESS or configure [main].internal_address in config file."
    );
}

#[test]
fn config_malformed_file_is_refused() {
    let err = InfrahubConfig::from_sources(
        environment(),
        ConfigFile::Malformed("expected `=`".to_string()),
    )
    .err()
    .unwrap();
    assert_eq!(err, "Failed to parse config file: expected `=`");
}

#[test]
fn config_sdk_address_is_last_resort() {
    let mut env = environment();
    env.address = Some("http://sdk:8000".to_string());
    let config = InfrahubConfig::from_sources(env, ConfigFile::Unreadable).unwrap();
    assert_eq!(config.address, "http://sdk:8000");

    let mut env = environment();
    env.address = Some("http://sdk:8000".to_string());
    let config = InfrahubConfig::from_sources(env, toml_address("http://toml:9000")).unwrap();
    assert_eq!(config.address, "http://toml:9000");
}

#[test]
fn config_path_precedence() {
    let mut env = environment();
    env.config_file = Some("/etc/infrahub.toml".to_string());
    assert_eq!(
        InfrahubConfig::config_file_to_read(&env, Some("cli.toml")),
        Some("cli.toml".to_string())
    );
    assert_eq!(
        InfrahubConfig::config_file_to_read(&env, None),
        Some("/etc/infrahub.toml".to_string())
    );
    assert_eq!(
        InfrahubConfig::config_file_to_read(&environment(), None),
        Some("infrahub.toml".to_string())
    );
}

#[test]
fn config_tls_insecure_values() {
    assert!(tls_insecure_setting(&Some("TRUE".to_string())));
    assert!(tls_insecure_setting(&Some("Yes".to_string())));
    assert!(tls_insecure_setting(&Some("1".to_string())));
    assert!(!tls_insecure_setting(&Some("on".to_string())));
    assert!(!tls_insecure_setting(&Some("".to_string())));
    assert!(!tls_insecure_setting(&None));
    assert!(is_truthy_flag("yes"));
    assert!(!is_truthy_flag("YES"));
}

#[test]
fn config_settings_carried_over() {
    let mut env = environment();
    env.internal_address = Some("http://test:8000".to_string());
    env.proxy = Some("http://proxy:3128".to_string());
    env.tls_insecure = Some("true".to_string());
    env.tls_ca_file = Some("/ca.pem".to_string());
    let config = InfrahubConfig::from_sources(env, ConfigFile::Unreadable).unwrap();
    assert_eq!(config.proxy.as_deref(), Some("http://proxy:3128"));
    assert!(config.tls_insecure);
    assert_eq!(config.tls_ca_file.as_deref(), Some("/ca.pem"));
    assert_eq!(config.api_token, None);
}

#[test]
fn failure_messages() {
    assert_eq!(Failure::CaFileRead.message("gone"), "Failed to read CA file: gone");
    assert_eq!(
        Failure::CaCertificateParse.message("bad"),
        "Failed to parse CA certificate: bad"
    );
    assert_eq!(Failure::ProxyUrl.message("x"), "Invalid proxy URL: x");
    assert_eq!(Failure::Authentication.message("401"), "Authentication failed: 401");
    assert_eq!(
        Failure::AuthResponseParse.message("eof"),
        "Failed to parse auth response: eof"
    );
}

#[test]
fn config_timeout_from_env() {
    let mut env = environment();
    env.internal_address = Some("http://test:8000".to_string());
    env.timeout = Some("30".to_string());
    let config = InfrahubConfig::from_sources(env, ConfigFile::Unreadable).unwrap();
    assert_eq!(config.timeout_secs, 30);

    let mut env = environment();
    env.internal_address = Some("http://test:8000".to_string());
    let config = InfrahubConfig::from_sources(env, ConfigFile::Unreadable).unwrap();
    assert_eq!(config.timeout_secs, DEFAULT_TIMEOUT_SECS);
    assert_eq!(DEFAULT_TIMEOUT_SECS, 10);
}

#[test]
fn config_timeout_values() {
    assert_eq!(parse_seconds("0"), Some(0));
    assert_eq!(parse_seconds("007"), Some(7));
    assert_eq!(parse_seconds("18446744073709551615"), Some(u64::MAX));
    assert_eq!(parse_seconds("18446744073709551616"), None);
    assert_eq!(parse_seconds(""), None);
    assert_eq!(parse_seconds("1.5"), None);
    assert_eq!(parse_seconds(" 5"), None);
    assert_eq!(parse_seconds("-5"), None);
    assert_eq!(parse_seconds("\u{0661}"), None);
    assert_eq!(timeout_setting(&Some("abc".to_string())), 10);
    assert_eq!(timeout_setting(&Some("120".to_string())), 120);
    assert_eq!(timeout_setting(&None), 10);
}
