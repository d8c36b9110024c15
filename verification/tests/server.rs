use myapp::mcp_config::{McpConfig, OAuthCorsConfig, ServerConfig};
use myapp::secret::SecretString;
use myapp::server::{
    apply_cli_overrides, cors_policy, plan_routes, resolve_base_url, validate_transport_security, BindAddress,
    CliOverrides, CorsPolicy, RouteAuth,
};

fn oauth_config(origins: Vec<&str>, base_url: Option<&str>, allow_insecure: bool) -> ServerConfig {
    let mut config = ServerConfig::default();
    config.mcp.auth_mode = "oauth".to_string();
    config.mcp.oauth_cors = OAuthCorsConfig { origins: origins.into_iter().map(str::to_string).collect() };
    config.mcp.base_url = base_url.map(str::to_string);
    config.mcp.oauth_allow_insecure_http = allow_insecure;
    config
}

fn non_loopback() -> BindAddress {
    BindAddress { text: "203.0.113.1:8080".to_string(), loopback: false }
}

fn loopback() -> BindAddress {
    BindAddress { text: "127.0.0.1:8080".to_string(), loopback: true }
}

#[test]
fn oauth_refuses_wildcard_cors_origin() {
    let config = oauth_config(vec!["*"], Some("https://mcp.example.com"), false);
    let err = validate_transport_security(&config, &non_loopback()).expect_err("wildcard CORS under oauth must be refused");
    assert!(err.contains("wildcard"), "got: {err}");
}

#[test]
fn oauth_refuses_plaintext_on_non_loopback() {
    let config = oauth_config(vec!["https://app.example.com"], Some("http://mcp.example.com"), false);
    let err =
        validate_transport_security(&config, &non_loopback()).expect_err("plaintext oauth off-loopback must be refused");
    assert!(err.contains("plain HTTP"), "got: {err}");
    assert!(err.contains("(203.0.113.1:8080)"), "got: {err}");
}

#[test]
fn oauth_allows_plaintext_on_non_loopback_with_override() {
    let config = oauth_config(vec!["https://app.example.com"], Some("http://mcp.example.com"), true);
    validate_transport_security(&config, &non_loopback()).expect("override permits plaintext oauth off-loopback");
}

#[test]
fn oauth_allows_plaintext_on_loopback_and_https_anywhere() {
    let config = oauth_config(vec!["http://localhost"], None, false);
    validate_transport_security(&config, &loopback()).expect("plain HTTP on loopback is allowed");
    let config = oauth_config(vec!["http://localhost"], Some("https://mcp.example.com"), false);
    validate_transport_security(&config, &non_loopback()).expect("HTTPS is allowed anywhere");
}

#[test]
fn none_mode_refuses_non_loopback() {
    let mut config = ServerConfig::default();
    config.mcp.auth_mode = "none".to_string();
    let err =
        validate_transport_security(&config, &non_loopback()).expect_err("auth_mode=none off-loopback must be refused");
    assert!(err.contains("loopback"), "got: {err}");
    assert_eq!(
        err,
        "auth_mode=\"none\" is only allowed on loopback addresses. Current bind address: 203.0.113.1:8080"
    );
    validate_transport_security(&config, &loopback()).expect("auth_mode=none on loopback is allowed");
}

#[test]
fn token_mode_requires_token() {
    let mut config = ServerConfig::default();
    config.mcp.auth_mode = "token".to_string();
    config.mcp.token = None;
    let err = validate_transport_security(&config, &non_loopback())
        .expect_err("auth_mode=token without a token must be refused");
    assert!(err.contains("token"), "got: {err}");
    config.mcp.token = Some(SecretString::from("t"));
    validate_transport_security(&config, &non_loopback()).expect("a token is enough");
}

#[test]
fn unknown_mode_is_refused() {
    let mut config = ServerConfig::default();
    config.mcp.auth_mode = "basic".to_string();
    let err = validate_transport_security(&config, &loopback()).unwrap_err();
    assert_eq!(err, "Unknown auth_mode: basic. Use \"token\", \"oauth\", or \"none\"");
}

#[test]
fn base_url_defaults_to_bind_address() {
    let config = ServerConfig::default();
    assert_eq!(resolve_base_url(&config, &loopback()), "http://127.0.0.1:8080");
    let mut config = ServerConfig::default();
    config.mcp.base_url = Some("https://mcp.example.com".to_string());
    assert_eq!(resolve_base_url(&config, &loopback()), "https://mcp.example.com");
}

#[test]
fn bind_target_joins_host_and_port() {
    let mut mcp = McpConfig::default();
    assert_eq!(mcp.bind_target(), "127.0.0.1:8080");
    mcp.host = "0.0.0.0".to_string();
    mcp.port = 1;
    assert_eq!(mcp.bind_target(), "0.0.0.0:1");
}

#[test]
fn cors_policy_wildcard_allows_any_origin() {
    let policy = cors_policy(&OAuthCorsConfig { origins: vec!["http://a".to_string(), "*".to_string()] });
    assert!(matches!(policy, CorsPolicy::AnyOrigin));
}

#[test]
fn cors_policy_keeps_valid_origins_in_order() {
    let policy = cors_policy(&OAuthCorsConfig {
        origins: vec![
            "http://localhost".to_string(),
            "bad\norigin".to_string(),
            "https://app.example.com".to_string(),
        ],
    });
    match policy {
        CorsPolicy::Origins(origins) => assert_eq!(origins, vec!["http://localhost", "https://app.example.com"]),
        CorsPolicy::AnyOrigin => panic!("no wildcard was configured"),
    }
    match cors_policy(&OAuthCorsConfig::default()) {
        CorsPolicy::Origins(origins) => assert_eq!(origins, vec!["http://localhost", "http://127.0.0.1", "http://[::1]"]),
        CorsPolicy::AnyOrigin => panic!("the defaults hold no wildcard"),
    }
}

#[test]
fn oauth_routes_are_planned_from_the_settings() {
    let mut config = oauth_config(vec!["http://localhost"], None, false);
    config.mcp.oauth_pin = Some(SecretString::from("4321"));
    config.mcp.oauth_sweep_interval_secs = 42;
    match plan_routes(&config, &loopback()).unwrap() {
        RouteAuth::OAuth(routes) => {
            assert_eq!(routes.base_url, "http://127.0.0.1:8080");
            assert_eq!(routes.resource_metadata_url, "http://127.0.0.1:8080/.well-known/oauth-protected-resource");
            assert_eq!(routes.oauth_pin.as_deref(), Some("4321"));
            assert_eq!(routes.sweep_interval_secs, 42);
            assert_eq!(routes.store_config.token_expiry_secs, 3600);
            assert!(matches!(routes.cors, CorsPolicy::Origins(_)));
        },
        _ => panic!("expected OAuth routes"),
    }
}

#[test]
fn token_and_open_routes_are_planned() {
    let mut config = ServerConfig::default();
    config.mcp.token = Some(SecretString::from("s3cret"));
    match plan_routes(&config, &non_loopback()).unwrap() {
        RouteAuth::StaticToken(t) => assert_eq!(t, "s3cret"),
        _ => panic!("expected the static token"),
    }
    config.mcp.auth_mode = "none".to_string();
    assert!(matches!(plan_routes(&config, &loopback()).unwrap(), RouteAuth::Open));
    assert!(plan_routes(&config, &non_loopback()).is_err());
}

#[test]
fn cli_overrides_replace_configured_values() {
    let mut config = ServerConfig::default();
    let args = CliOverrides {
        base_url: Some("https://api.example".to_string()),
        api_key: Some("k".to_string()),
        host: Some("0.0.0.0".to_string()),
        port: Some(9000),
        token: Some("tok".to_string()),
        mcp_base_url: Some("https://mcp.example".to_string()),
        auth_mode: Some("oauth".to_string()),
        oauth_pin: Some("1234".to_string()),
    };
    apply_cli_overrides(&mut config, &args);
    assert_eq!(config.core.base_url, "https://api.example");
    assert_eq!(config.core.api_key.as_ref().map(|k| k.expose_secret()), Some("k"));
    assert_eq!(config.mcp.host, "0.0.0.0");
    assert_eq!(config.mcp.port, 9000);
    assert_eq!(config.mcp.token.as_ref().map(|k| k.expose_secret()), Some("tok"));
    assert_eq!(config.mcp.base_url.as_deref(), Some("https://mcp.example"));
    assert_eq!(config.mcp.auth_mode, "oauth");
    assert_eq!(config.mcp.oauth_pin.as_ref().map(|k| k.expose_secret()), Some("1234"));
}

#[test]
fn absent_cli_overrides_keep_configuration() {
    let mut config = ServerConfig::default();
    let args = CliOverrides {
        base_url: None,
        api_key: None,
        host: None,
        port: None,
        token: None,
        mcp_base_url: None,
        auth_mode: None,
        oauth_pin: None,
    };
    apply_cli_overrides(&mut config, &args);
    assert_eq!(config.core.base_url, "http://localhost:8080");
    assert_eq!(config.mcp.host, "127.0.0.1");
    assert_eq!(config.mcp.port, 8080);
    assert_eq!(config.mcp.auth_mode, "token");
    assert!(config.mcp.token.is_none());
}
