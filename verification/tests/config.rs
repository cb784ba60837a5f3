use gif_server::config::{parse_size, parse_upper_size, Config, ConfigError, EnvVars};

#[test]
fn parses_plain_bytes() {
    assert_eq!(parse_size("1024"), Some(1024));
}

#[test]
fn parses_suffixes_case_insensitively() {
    assert_eq!(parse_size("1KB"), Some(1024));
    assert_eq!(parse_size("2mb"), Some(2 * 1024 * 1024));
    assert_eq!(parse_size("3 GB"), Some(3 * 1024 * 1024 * 1024));
}

#[test]
fn zero_disables_cap() {
    assert_eq!(parse_size("0"), Some(u64::MAX));
}

#[test]
fn rejects_garbage() {
    assert_eq!(parse_size("abc"), None);
    assert_eq!(parse_size("1.5GB"), None);
}

#[test]
fn sizes_at_the_edge() {
    assert_eq!(parse_size(" 4tB "), Some(4 * 1024 * 1024 * 1024 * 1024));
    assert_eq!(parse_size("+7"), Some(7));
    assert_eq!(parse_size("0TB"), Some(u64::MAX));
    assert_eq!(parse_size("18446744073709551615"), Some(u64::MAX));
    assert_eq!(parse_size("18446744073709551616"), None);
    assert_eq!(parse_size("16777216TB"), None);
    assert_eq!(parse_size("16777215TB"), Some(16777215 * (1u64 << 40)));
    assert_eq!(parse_size(""), None);
    assert_eq!(parse_size("KB"), None);
    assert_eq!(parse_size("-1"), None);
    assert_eq!(parse_size("1 0"), None);
}

#[test]
fn upper_sizes_are_case_sensitive() {
    assert_eq!(parse_upper_size("2MB"), Some(2 * 1024 * 1024));
    assert_eq!(parse_upper_size("2mb"), None);
}

fn text(s: &str) -> Option<String> {
    Some(s.to_string())
}

fn minimal() -> EnvVars {
    EnvVars {
        port: None,
        base_url: None,
        matrix_admin_mxids: None,
        storage_max_bytes: None,
        per_user_storage_bytes: None,
        session_secret: text("0123456789abcdef0123456789abcdef"),
        database_url: text("postgres://db"),
        storage_path: None,
        host: None,
        matrix_server_name: text("example.com"),
        matrix_federation_url: text("https://example.com:8448//"),
        cors_allowed_origins: None,
    }
}

fn fault(vars: EnvVars) -> Option<ConfigError> {
    match Config::from_env(&vars) {
        Ok(_) => None,
        Err(e) => Some(e),
    }
}

#[test]
fn defaults_are_filled_in() {
    let c = match Config::from_env(&minimal()) {
        Ok(c) => c,
        Err(e) => panic!("{}", e.message()),
    };
    assert_eq!(c.port, 8847);
    assert_eq!(c.host, "0.0.0.0");
    assert_eq!(c.storage_path, "storage");
    assert_eq!(c.base_url, "http://localhost:8847");
    assert_eq!(c.matrix_federation_url, "https://example.com:8448");
    assert_eq!(c.storage_max_bytes, 10 * 1024 * 1024 * 1024);
    assert_eq!(c.per_user_storage_bytes, 1024 * 1024 * 1024);
    assert!(c.admin_mxids.is_empty());
    assert!(c.allows_any_origin());
    assert!(!c.tokens_in_plaintext());
    assert!(!c.is_admin("@a:example.com"));
    assert_eq!(c.listen_address(), "0.0.0.0:8847");
}

#[test]
fn base_url_does_not_follow_the_port() {
    let mut v = minimal();
    v.port = text("9000");
    let c = Config::from_env(&v).ok().unwrap();
    assert_eq!(c.port, 9000);
    assert_eq!(c.base_url, "http://localhost:8847");
    assert_eq!(c.listen_address(), "0.0.0.0:9000");
}

#[test]
fn sizes_ignore_case_and_blanks() {
    for s in ["1024", "2MB", "3 GB", "0", "0kB", "abc", "", "18446744073709551615KB"] {
        let lower = format!("  {}\t\u{a0}", s.to_ascii_lowercase());
        assert_eq!(parse_size(s), parse_size(&lower), "{s}");
        assert_eq!(parse_size(s), parse_size(&s.to_ascii_uppercase()), "{s}");
        assert_ne!(parse_size(s), Some(0));
    }
    assert_eq!(parse_size("0kB"), Some(u64::MAX));
}

#[test]
fn given_values_are_taken() {
    let mut v = minimal();
    v.port = text("80");
    v.base_url = text("http://gifs.example.com");
    v.matrix_admin_mxids = text(" @a:example.com,, @b:example.com ,");
    v.cors_allowed_origins = text("https://app.example.com");
    v.storage_max_bytes = text("0");
    let c = match Config::from_env(&v) {
        Ok(c) => c,
        Err(e) => panic!("{}", e.message()),
    };
    assert_eq!(c.port, 80);
    assert_eq!(c.admin_mxids, vec!["@a:example.com".to_string(), "@b:example.com".to_string()]);
    assert_eq!(c.cors_allowed_origins, vec!["https://app.example.com".to_string()]);
    assert_eq!(c.storage_max_bytes, u64::MAX);
    assert!(c.is_admin("@b:example.com"));
    assert!(!c.is_admin("@c:example.com"));
    assert!(!c.is_admin(""));
    assert!(c.tokens_in_plaintext());
    assert!(!c.allows_any_origin());
}

#[test]
fn each_fault_is_found() {
    let mut v = minimal();
    v.port = text("65536");
    assert_eq!(fault(v), Some(ConfigError::PortNotANumber));
    let mut v = minimal();
    v.port = text("http");
    assert_eq!(fault(v), Some(ConfigError::PortNotANumber));
    let mut v = minimal();
    v.storage_max_bytes = text("lots");
    assert_eq!(fault(v), Some(ConfigError::BadStorageMaxBytes));
    let mut v = minimal();
    v.per_user_storage_bytes = text("some");
    assert_eq!(fault(v), Some(ConfigError::BadPerUserStorageBytes));
    let mut v = minimal();
    v.session_secret = None;
    assert_eq!(fault(v), Some(ConfigError::NoSessionSecret));
    let mut v = minimal();
    v.session_secret = text("0123456789abcdef0123456789abcde");
    assert_eq!(fault(v), Some(ConfigError::ShortSessionSecret));
    let mut v = minimal();
    v.database_url = None;
    assert_eq!(fault(v), Some(ConfigError::NoDatabaseUrl));
    let mut v = minimal();
    v.matrix_server_name = None;
    assert_eq!(fault(v), Some(ConfigError::NoMatrixServerName));
    let mut v = minimal();
    v.matrix_federation_url = None;
    assert_eq!(fault(v), Some(ConfigError::NoMatrixFederationUrl));
}

#[test]
fn secret_is_counted_in_characters() {
    let mut v = minimal();
    v.session_secret = text("éééééééééééééééé");
    assert_eq!(fault(v), Some(ConfigError::ShortSessionSecret));
}

#[test]
fn fault_messages() {
    assert_eq!(ConfigError::PortNotANumber.message(), "PORT must be a number");
    assert_eq!(
        ConfigError::ShortSessionSecret.message(),
        "SESSION_SECRET must be at least 32 characters; use a long random value"
    );
    assert_eq!(ConfigError::NoDatabaseUrl.message(), "DATABASE_URL must be set");
}
