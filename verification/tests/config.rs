use myapp::config::{ApiKeySource, Config, ConfigFile};
use myapp::env::{env_non_empty, env_non_empty_u64, Env, MapEnv};
use myapp::error::Error;
use myapp::mcp_config::{apply_mcp_env, parse_origins, resolve_secret, McpConfig, OAuthCorsConfig, ServerConfig};
use myapp::secret::SecretString;
use myapp::store::OAuthStoreConfig;

fn expose_secret_opt(secret: &Option<SecretString>) -> Option<&str> {
    secret.as_ref().map(|val| val.expose_secret())
}

fn inline_key(source: Option<ApiKeySource>) -> Option<String> {
    match source {
        Some(ApiKeySource::Inline(k)) => Some(k.expose_secret().to_string()),
        _ => None,
    }
}

#[test]
fn env_api_key_beats_file_value() {
    let env = MapEnv::new().with("MYAPP_API_KEY", "from-env");
    let key = Config::resolve_api_key(Some("from-toml".into()), None, &env).unwrap();
    assert_eq!(inline_key(key).unwrap(), "from-env");
}

#[test]
fn toml_value_and_file_conflict_errors() {
    let env = MapEnv::new();
    let result = Config::resolve_api_key(Some("a".into()), Some("/tmp/x".into()), &env);
    assert!(matches!(result, Err(Error::Config(_))));
}

#[test]
fn base_url_env_overrides_default() {
    let env = MapEnv::new().with("MYAPP_BASE_URL", "https://api.example.test");
    let (config, _pending) = Config::load_with_env(ConfigFile::default(), &env).unwrap();
    assert_eq!(config.base_url, "https://api.example.test");
}

#[test]
fn api_key_file_is_read_and_trimmed() {
    let env = MapEnv::new().with("MYAPP_API_KEY_FILE", "/run/secrets/key");
    let (mut config, pending) = Config::load_with_env(ConfigFile::default(), &env).unwrap();
    assert_eq!(pending.as_deref(), Some("/run/secrets/key"));
    assert!(config.api_key.is_none());
    config.fill_api_key("  secret-key\n\n");
    assert_eq!(expose_secret_opt(&config.api_key), Some("secret-key"));
}

#[test]
fn file_values_apply_when_env_is_silent() {
    let env = MapEnv::new().with("MYAPP_BASE_URL", "");
    let mut file = ConfigFile::default();
    file.base_url = Some("https://file.example".to_string());
    file.api_key = Some("file-key".to_string());
    file.http.request_timeout_secs = Some(5);
    let (config, pending) = Config::load_with_env(file, &env).unwrap();
    assert_eq!(config.base_url, "https://file.example");
    assert_eq!(expose_secret_opt(&config.api_key), Some("file-key"));
    assert_eq!(config.http.request_timeout_secs, 5);
    assert_eq!(config.http.connect_timeout_secs, 10);
    assert_eq!(config.log.level, "info");
    assert!(pending.is_none());
}

#[test]
fn env_timeouts_override_file() {
    let env = MapEnv::new()
        .with("MYAPP_HTTP_REQUEST_TIMEOUT_SECS", "7")
        .with("MYAPP_HTTP_CONNECT_TIMEOUT_SECS", "not-a-number")
        .with("MYAPP_LOG_LEVEL", "debug");
    let mut file = ConfigFile::default();
    file.http.request_timeout_secs = Some(5);
    file.http.connect_timeout_secs = Some(3);
    let (config, _) = Config::load_with_env(file, &env).unwrap();
    assert_eq!(config.http.request_timeout_secs, 7);
    assert_eq!(config.http.connect_timeout_secs, 3);
    assert_eq!(config.log.level, "debug");
}

#[test]
fn conflicting_key_fields_error_message() {
    let env = MapEnv::new();
    let mut file = ConfigFile::default();
    file.api_key = Some("a".to_string());
    file.api_key_file = Some("/tmp/x".to_string());
    match Config::load_with_env(file, &env) {
        Err(err) => assert_eq!(err.to_string(), "configuration error: set either api_key or api_key_file, not both"),
        Ok(_) => panic!("both key fields must be refused"),
    }
}

#[test]
fn cli_flags_override_config() {
    let env = MapEnv::new();
    let (mut config, _) = Config::load_with_env(ConfigFile::default(), &env).unwrap();
    config.apply_overrides(Some("https://cli.example".to_string()), Some("cli-key".to_string()));
    assert_eq!(config.base_url, "https://cli.example");
    assert_eq!(expose_secret_opt(&config.api_key), Some("cli-key"));
}

#[test]
fn config_path_prefers_explicit_then_env() {
    let env = MapEnv::new().with("MYAPP_CONFIG", "/etc/myapp.toml");
    assert_eq!(
        myapp::config::resolve_config_path(Some("/explicit.toml".to_string()), &env).as_deref(),
        Some("/explicit.toml")
    );
    assert_eq!(myapp::config::resolve_config_path(None, &env).as_deref(), Some("/etc/myapp.toml"));
}

#[test]
fn join_path_adds_one_separator() {
    assert_eq!(myapp::config::join_path("/home/u/.config", "myapp"), "/home/u/.config/myapp");
    assert_eq!(myapp::config::join_path("/home/u/.config/", "myapp"), "/home/u/.config/myapp");
    assert_eq!(myapp::config::join_path("", "myapp"), "myapp");
}

#[test]
fn env_helpers_treat_empty_as_unset() {
    let env = MapEnv::new().with("A", "").with("B", "42").with("C", "x");
    assert_eq!(env.get("A").as_deref(), Some(""));
    assert_eq!(env_non_empty(&env, "A"), None);
    assert_eq!(env_non_empty(&env, "B").as_deref(), Some("42"));
    assert_eq!(env_non_empty_u64(&env, "B"), Some(42));
    assert_eq!(env_non_empty_u64(&env, "C"), None);
    assert_eq!(env_non_empty(&env, "missing"), None);
}

#[test]
fn debug_is_redacted() {
    let secret = SecretString::from("super-secret-value");
    let rendered = secret.debug_text();
    assert!(!rendered.contains("super-secret-value"));
    assert_eq!(rendered, "SecretString([REDACTED])");
}

#[test]
fn expose_secret_returns_inner() {
    let secret = SecretString::from("abc123".to_string());
    assert_eq!(secret.expose_secret(), "abc123");
}

#[test]
fn default_mcp_config_has_expected_values() {
    let config = ServerConfig::default();
    assert_eq!(config.mcp.host, "127.0.0.1");
    assert_eq!(config.mcp.port, 8080);
    assert!(config.mcp.token.is_none());
    assert_eq!(config.mcp.auth_mode, "token");
    assert!(config.mcp.oauth_pin.is_none());
    assert_eq!(config.mcp.oauth_token_expiry_secs, 3600);
}

#[test]
fn debug_redacts_mcp_secrets() {
    let mut mcp = McpConfig::default();
    mcp.token = Some(SecretString::from("super-secret-token"));
    mcp.oauth_pin = Some(SecretString::from("1234"));
    let debug_output = mcp.debug_text();
    assert!(!debug_output.contains("super-secret-token"), "Debug should not contain token: {debug_output}");
    assert!(!debug_output.contains("\"1234\""), "Debug should not contain oauth_pin: {debug_output}");
    assert!(debug_output.contains("token: Some(\"[REDACTED]\")"), "{debug_output}");
}

#[test]
fn mcp_debug_text_of_defaults() {
    let debug_output = McpConfig::default().debug_text();
    assert_eq!(
        debug_output,
        "McpConfig { host: \"127.0.0.1\", port: 8080, base_url: None, token: None, auth_mode: \"token\", \
         oauth_pin: None, oauth_token_expiry_secs: 3600, oauth_auth_code_ttl_secs: 60, \
         oauth_csrf_nonce_ttl_secs: 600, oauth_sweep_interval_secs: 300, oauth_cors: OAuthCorsConfig { \
         origins: [\"http://localhost\", \"http://127.0.0.1\", \"http://[::1]\"] }, max_response_bytes: 1048576 }"
    );
}

#[test]
fn default_oauth_cors_has_localhost_origins() {
    let config = ServerConfig::default();
    assert_eq!(config.mcp.oauth_cors.origins.len(), 3);
    assert!(config.mcp.oauth_cors.origins.contains(&"http://localhost".to_string()));
    assert!(config.mcp.oauth_cors.origins.contains(&"http://127.0.0.1".to_string()));
    assert!(config.mcp.oauth_cors.origins.contains(&"http://[::1]".to_string()));
}

#[test]
fn mcp_env_overrides_apply() {
    let env = MapEnv::new()
        .with("MYAPP_MCP_HOST", "0.0.0.0")
        .with("MYAPP_MCP_PORT", "9191")
        .with("MYAPP_MCP_AUTH_MODE", "oauth")
        .with("MYAPP_MCP_TOKEN", "env-token");
    let mut mcp = McpConfig::default();
    apply_mcp_env(&mut mcp, &env).unwrap();
    assert_eq!(mcp.host, "0.0.0.0");
    assert_eq!(mcp.port, 9191);
    assert_eq!(mcp.auth_mode, "oauth");
    assert_eq!(expose_secret_opt(&mcp.token), Some("env-token"));
}

#[test]
fn non_numeric_port_env_is_rejected() {
    let env = MapEnv::new().with("MYAPP_MCP_PORT", "not-a-number");
    let mut mcp = McpConfig::default();
    let err = apply_mcp_env(&mut mcp, &env).unwrap_err();
    assert!(err.contains("MYAPP_MCP_PORT"));
    assert_eq!(err, "invalid MYAPP_MCP_PORT value \"not-a-number\": invalid digit found in string");
}

#[test]
fn out_of_range_port_env_is_rejected() {
    let env = MapEnv::new().with("MYAPP_MCP_PORT", "70000");
    let mut mcp = McpConfig::default();
    let err = apply_mcp_env(&mut mcp, &env).unwrap_err();
    assert_eq!(err, "invalid MYAPP_MCP_PORT value \"70000\": number too large to fit in target type");
}

#[test]
fn max_response_bytes_defaults_to_one_mib() {
    let config = ServerConfig::default();
    assert_eq!(config.mcp.max_response_bytes, 1024 * 1024);
}

#[test]
fn max_response_bytes_env_override_applies() {
    let env = MapEnv::new().with("MYAPP_MCP_MAX_RESPONSE_BYTES", "4096");
    let mut mcp = McpConfig::default();
    apply_mcp_env(&mut mcp, &env).unwrap();
    assert_eq!(mcp.max_response_bytes, 4096);
}

#[test]
fn secret_fields_default_to_none() {
    let config = ServerConfig::default();
    assert!(config.mcp.token.is_none());
    assert!(config.mcp.oauth_pin.is_none());
}

#[test]
fn env_token_drops_token_file_and_lifetimes_apply() {
    let env = MapEnv::new()
        .with("MYAPP_MCP_TOKEN", "t")
        .with("MYAPP_MCP_OAUTH_TOKEN_EXPIRY_SECS", "120")
        .with("MYAPP_MCP_OAUTH_AUTH_CODE_TTL_SECS", "30")
        .with("MYAPP_MCP_OAUTH_CSRF_NONCE_TTL_SECS", "90")
        .with("MYAPP_MCP_OAUTH_SWEEP_INTERVAL_SECS", "15")
        .with("MYAPP_MCP_OAUTH_PIN_FILE", "/run/pin");
    let mut mcp = McpConfig::default();
    mcp.token_file = Some("/run/token".to_string());
    apply_mcp_env(&mut mcp, &env).unwrap();
    assert!(mcp.token_file.is_none());
    assert_eq!(mcp.oauth_token_expiry_secs, 120);
    assert_eq!(mcp.oauth_pin_file.as_deref(), Some("/run/pin"));
    let store = OAuthStoreConfig::from_mcp_config(&mcp);
    assert_eq!(store.token_expiry_secs, 120);
    assert_eq!(store.auth_code_ttl_secs, 30);
    assert_eq!(store.csrf_nonce_ttl_secs, 90);
    assert_eq!(mcp.oauth_sweep_interval_secs, 15);
}

#[test]
fn env_token_file_overrides_file_settings_token() {
    let env = MapEnv::new().with("MYAPP_MCP_TOKEN_FILE", "/run/token");
    let mut mcp = McpConfig::default();
    mcp.token = Some(SecretString::from("a"));
    apply_mcp_env(&mut mcp, &env).unwrap();
    assert!(mcp.token.is_none());
    assert_eq!(mcp.token_file.as_deref(), Some("/run/token"));
    let path = resolve_secret(&mcp.token, mcp.token_file.take(), "token").unwrap();
    assert_eq!(path.as_deref(), Some("/run/token"));
    mcp.fill_token("b\n");
    assert_eq!(expose_secret_opt(&mcp.token), Some("b"));
}

#[test]
fn env_pin_file_overrides_file_settings_pin() {
    let env = MapEnv::new().with("MYAPP_MCP_OAUTH_PIN_FILE", "/run/pin");
    let mut mcp = McpConfig::default();
    mcp.oauth_pin = Some(SecretString::from("1234"));
    apply_mcp_env(&mut mcp, &env).unwrap();
    assert!(mcp.oauth_pin.is_none());
    assert_eq!(mcp.oauth_pin_file.as_deref(), Some("/run/pin"));
    assert_eq!(resolve_secret(&mcp.oauth_pin, mcp.oauth_pin_file.take(), "oauth_pin").unwrap().as_deref(), Some("/run/pin"));
}

#[test]
fn env_inline_token_beats_env_token_file() {
    let env = MapEnv::new().with("MYAPP_MCP_TOKEN", "inline").with("MYAPP_MCP_TOKEN_FILE", "/run/token");
    let mut mcp = McpConfig::default();
    apply_mcp_env(&mut mcp, &env).unwrap();
    assert_eq!(expose_secret_opt(&mcp.token), Some("inline"));
    assert!(mcp.token_file.is_none());
}

#[test]
fn cors_origins_env_is_split_and_trimmed() {
    let env = MapEnv::new().with("MYAPP_MCP_OAUTH_CORS_ORIGINS", " https://a.example , ,http://b.example,");
    let mut mcp = McpConfig::default();
    apply_mcp_env(&mut mcp, &env).unwrap();
    assert_eq!(mcp.oauth_cors.origins, vec!["https://a.example", "http://b.example"]);
    assert_eq!(parse_origins("*"), vec!["*"]);
    assert!(parse_origins(" , ").is_empty());
}

#[test]
fn oauth_cors_origins_from_values() {
    let cors = OAuthCorsConfig { origins: vec!["https://app.example.com".to_string(), "http://localhost:3000".to_string()] };
    assert_eq!(cors.origins, vec!["https://app.example.com", "http://localhost:3000"]);
}

#[test]
fn secret_file_alongside_inline_value_is_refused() {
    let inline = Some(SecretString::from("inline"));
    let err = resolve_secret(&inline, Some("/run/token".to_string()), "token").unwrap_err();
    assert_eq!(err, "set either token or token_file, not both");
    assert_eq!(resolve_secret(&None, Some("/run/pin".to_string()), "oauth_pin").unwrap().as_deref(), Some("/run/pin"));
    assert_eq!(resolve_secret(&inline, None, "token").unwrap(), None);
}

#[test]
fn token_and_pin_files_are_trimmed() {
    let mut mcp = McpConfig::default();
    mcp.fill_token(" tok \n");
    mcp.fill_oauth_pin("1234\n");
    assert_eq!(expose_secret_opt(&mcp.token), Some("tok"));
    assert_eq!(expose_secret_opt(&mcp.oauth_pin), Some("1234"));
}

#[test]
fn allowed_hosts_default_to_loopback_and_env_overrides() {
    let mcp = McpConfig::default();
    assert_eq!(mcp.allowed_hosts, vec!["localhost", "127.0.0.1", "::1"]);
    let env = MapEnv::new().with("MYAPP_MCP_ALLOWED_HOSTS", "mcp.example.com, mcp.example.com:8443");
    let mut mcp = McpConfig::default();
    apply_mcp_env(&mut mcp, &env).unwrap();
    assert_eq!(mcp.allowed_hosts, vec!["mcp.example.com", "mcp.example.com:8443"]);
    let env = MapEnv::new().with("MYAPP_MCP_ALLOWED_HOSTS", ",");
    let mut mcp = McpConfig::default();
    apply_mcp_env(&mut mcp, &env).unwrap();
    assert!(mcp.allowed_hosts.is_empty());
}
