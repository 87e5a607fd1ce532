use sqld_core::auth::{parse_http_basic_auth_arg, AuthError};
use sqld_core::backup::restore_db_path;
use sqld_core::config::{
    extension_digest_matches, make_hearbeat_config, parse_extensions_list, AdminApiConfig,
    HeartbeatConfig, TlsConfig, UserApiConfig,
};
use sqld_core::error::Error;

fn user_api(http_auth: Option<&str>, jwt: Option<&str>) -> UserApiConfig<()> {
    UserApiConfig {
        hrana_ws_acceptor: None,
        http_acceptor: None,
        enable_http_console: false,
        self_url: None,
        http_auth: http_auth.map(|s| s.to_string()),
        auth_jwt_key: jwt.map(|s| s.to_string()),
    }
}

#[test]
fn basic_auth_argument_must_carry_the_prefix() {
    assert_eq!(parse_http_basic_auth_arg("basic:dXNlcjpwdw==").unwrap(), Some("dXNlcjpwdw==".to_string()));
    assert_eq!(parse_http_basic_auth_arg("basic:").unwrap(), Some(String::new()));
    assert!(matches!(parse_http_basic_auth_arg("digest:zzz"), Err(AuthError::BasicRejected)));
    assert!(matches!(parse_http_basic_auth_arg("basic"), Err(AuthError::BasicRejected)));
    assert!(matches!(parse_http_basic_auth_arg(""), Err(AuthError::BasicRejected)));
}

#[test]
fn get_auth_disables_only_without_credentials() {
    let none = user_api(None, None).get_auth().unwrap();
    assert!(none.disabled);
    assert!(none.http_basic.is_none() && none.jwt_key.is_none());

    let basic = user_api(Some("basic:Zm9v"), None).get_auth().unwrap();
    assert!(!basic.disabled);
    assert_eq!(basic.http_basic.as_deref(), Some("Zm9v"));

    let jwt = user_api(None, Some("some-ed25519-key-text")).get_auth().unwrap();
    assert!(!jwt.disabled);
    assert_eq!(jwt.jwt_key.as_deref(), Some("some-ed25519-key-text"));

    let bad = user_api(Some("garbage"), None).get_auth();
    assert!(matches!(bad, Err(AuthError::BasicRejected)));
}

#[test]
fn heartbeat_config_needs_a_url() {
    assert!(make_hearbeat_config(None, 30, Some("Bearer x".to_string())).is_none());
    let c: HeartbeatConfig =
        make_hearbeat_config(Some("https://example.invalid/beat".to_string()), 30, None).unwrap();
    assert_eq!(c.heartbeat_url, "https://example.invalid/beat");
    assert_eq!(c.heartbeat_period, 30);
    assert!(c.heartbeat_auth.is_none());
}

#[test]
fn extensions_list_parses_digest_and_name_lines() {
    let contents = "99890762817735984843bf5cf02a4b2ea648018fd05f04df6f9ce7f976841510  math.dylib\n\nabc123 vector.so\n";
    let entries = parse_extensions_list(contents).unwrap();
    assert_eq!(entries.len(), 2);
    assert_eq!(
        entries[0].sha,
        "99890762817735984843bf5cf02a4b2ea648018fd05f04df6f9ce7f976841510"
    );
    assert_eq!(entries[0].fname, "math.dylib");
    assert_eq!(entries[1].sha, "abc123");
    assert_eq!(entries[1].fname, "vector.so");
}

#[test]
fn extensions_list_rejects_bad_lines() {
    // a line with a single field
    assert!(matches!(
        parse_extensions_list("abc123\n"),
        Err(Error::InvalidExtensionLine)
    ));
    // a whitespace-only line is not skipped; it lacks both fields
    assert!(matches!(
        parse_extensions_list("   \n"),
        Err(Error::InvalidExtensionLine)
    ));
    // a file name with whitespace
    assert!(matches!(
        parse_extensions_list("abc123 my extension.so\n"),
        Err(Error::ExtensionNameWithWhitespace)
    ));
    // an empty list is fine
    assert_eq!(parse_extensions_list("").unwrap().len(), 0);
}

#[test]
fn extension_digests_compare_exactly() {
    let entries = parse_extensions_list("abc123 math.dylib\n").unwrap();
    assert!(extension_digest_matches(&entries[0], "abc123"));
    assert!(!extension_digest_matches(&entries[0], "abc124"));
}

#[test]
fn restore_path_strips_the_namespace_prefix() {
    assert_eq!(
        restore_db_path("bucket-db", "ns-default").as_deref(),
        Some("bucket-db/dbs/default/data")
    );
    assert_eq!(restore_db_path("x", "ns-").as_deref(), Some("x/dbs//data"));
    // a namespace without the prefix is rejected rather than mangled
    assert!(restore_db_path("bucket-db", "default").is_none());
    assert!(restore_db_path("bucket-db", "ns").is_none());
}

#[test]
fn error_labels_name_the_kinds() {
    assert_eq!(Error::TooManyRequests.label(), "TOO_MANY_REQUESTS");
    assert_eq!(Error::DbCreateTimeout.label(), "DB_CREATE_TIMEOUT");
    assert_eq!(Error::Blocked(Some("maintenance".to_string())).label(), "BLOCKED");
    assert_eq!(Error::InvalidConfig.label(), "INVALID_CONFIG");
    assert_eq!(Error::IOError("x".to_string()).label(), "IO_ERROR");
}

#[test]
fn config_structs_carry_their_fields() {
    let tls = TlsConfig {
        cert: "/certs/server.pem".to_string(),
        key: "/certs/server.key".to_string(),
        ca_cert: "/certs/ca.pem".to_string(),
    };
    let tls2 = tls.clone();
    assert_eq!(tls2.cert, "/certs/server.pem");
    let admin = AdminApiConfig { acceptor: 5u32 };
    assert_eq!(admin.acceptor, 5);
}
