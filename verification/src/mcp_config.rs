//! Server configuration: the core client configuration plus the MCP server's
//! own settings (HTTP bind and endpoint authentication), the environment
//! overrides `MYAPP_MCP_*`, the CLI overrides, and the checks made before the
//! HTTP transport starts.

use vstd::prelude::*;
use crate::config::{clone_secret, secret_view, Config, ConfigView};
use crate::env::{env_non_empty, env_non_empty_u64, env_u64, env_value, Env};
use crate::secret::SecretString;
use crate::store::{clone_opt, clone_strings, opt_view, strings_view, OAuthStoreConfig};
use crate::text::{
    decimal, is_whitespace, join, join_strings, parse_u16, split_pieces, split_str, write_decimal, parse_unsigned, push_char, push_str, starts_with, str_eq, trim,
    trim_str, IntErrorKind,
};

verus! {

/// Default bind address.
pub const DEFAULT_MCP_HOST: &'static str = "127.0.0.1";
/// Default bind port.
pub const DEFAULT_MCP_PORT: u16 = 8080;
/// Default authentication mode.
pub const DEFAULT_MCP_AUTH_MODE: &'static str = "token";
/// Default OAuth access token lifetime.
pub const DEFAULT_OAUTH_TOKEN_EXPIRY_SECS: u64 = 3600;
/// Default OAuth authorization code lifetime.
pub const DEFAULT_OAUTH_AUTH_CODE_TTL_SECS: u64 = 60;
/// Default OAuth CSRF nonce lifetime.
pub const DEFAULT_OAUTH_CSRF_NONCE_TTL_SECS: u64 = 600;
/// Default interval between sweeps of expired OAuth entries.
pub const DEFAULT_OAUTH_SWEEP_INTERVAL_SECS: u64 = 300;
/// Default cap on the serialized size of a tool result: 1 MiB.
pub const DEFAULT_MAX_RESPONSE_BYTES: usize = 1048576;

/// CORS configuration for the MCP OAuth routes.
pub struct OAuthCorsConfig {
    /// Allowed origins. `["*"]` allows all origins. Defaults to localhost
    /// variants.
    pub origins: Vec<String>,
}

/// The default CORS origins.
pub open spec fn default_cors_origins() -> Seq<Seq<char>> {
    seq!["http://localhost"@, "http://127.0.0.1"@, "http://[::1]"@]
}

impl Default for OAuthCorsConfig {
    fn default() -> (c: Self)
        ensures
            strings_view(c.origins@) == default_cors_origins(),
    {
        let mut origins: Vec<String> = Vec::new();
        origins.push(String::from_str("http://localhost"));
        origins.push(String::from_str("http://127.0.0.1"));
        origins.push(String::from_str("http://[::1]"));
        assert(strings_view(origins@) =~= default_cors_origins());
        OAuthCorsConfig { origins }
    }
}

impl Clone for OAuthCorsConfig {
    fn clone(&self) -> (c: Self)
        ensures
            strings_view(c.origins@) == strings_view(self.origins@),
    {
        OAuthCorsConfig { origins: clone_strings(&self.origins) }
    }
}

/// MCP-server-specific settings (host/port + endpoint auth).
pub struct McpConfig {
    /// Bind address for the HTTP transport.
    pub host: String,
    /// Bind port for the HTTP transport.
    pub port: u16,
    /// Optional public base URL for OAuth redirect URIs.
    pub base_url: Option<String>,
    /// Static bearer token for token-based auth. Mutually exclusive with `token_file`.
    pub token: Option<SecretString>,
    /// Path to a file containing the bearer token.
    pub token_file: Option<String>,
    /// Authentication mode: `"token"`, `"oauth"`, or `"none"`.
    pub auth_mode: String,
    /// PIN code for OAuth authorization. Mutually exclusive with `oauth_pin_file`.
    pub oauth_pin: Option<SecretString>,
    /// Path to a file containing the OAuth PIN.
    pub oauth_pin_file: Option<String>,
    /// OAuth access token lifetime in seconds.
    pub oauth_token_expiry_secs: u64,
    /// TTL for OAuth authorization codes in seconds.
    pub oauth_auth_code_ttl_secs: u64,
    /// TTL for OAuth CSRF nonces in seconds.
    pub oauth_csrf_nonce_ttl_secs: u64,
    /// Interval between sweeps of expired OAuth entries in seconds.
    pub oauth_sweep_interval_secs: u64,
    /// CORS configuration for OAuth routes.
    pub oauth_cors: OAuthCorsConfig,
    /// Maximum serialized size (bytes) of a tool result.
    pub max_response_bytes: usize,
    /// Allow OAuth over plain HTTP on a non-loopback address (trusted private
    /// networks only).
    pub oauth_allow_insecure_http: bool,
    /// Hostnames (or `host:port`) accepted in the `Host` header of the HTTP
    /// transport, a guard against DNS rebinding. Defaults to loopback names;
    /// an empty list disables the check.
    pub allowed_hosts: Vec<String>,
}

/// The mathematical form of a [`McpConfig`].
pub struct McpView {
    pub host: Seq<char>,
    pub port: u16,
    pub base_url: Option<Seq<char>>,
    pub token: Option<Seq<char>>,
    pub token_file: Option<Seq<char>>,
    pub auth_mode: Seq<char>,
    pub oauth_pin: Option<Seq<char>>,
    pub oauth_pin_file: Option<Seq<char>>,
    pub oauth_token_expiry_secs: u64,
    pub oauth_auth_code_ttl_secs: u64,
    pub oauth_csrf_nonce_ttl_secs: u64,
    pub oauth_sweep_interval_secs: u64,
    pub cors_origins: Seq<Seq<char>>,
    pub max_response_bytes: usize,
    pub oauth_allow_insecure_http: bool,
    pub allowed_hosts: Seq<Seq<char>>,
}

impl View for McpConfig {
    type V = McpView;

    open spec fn view(&self) -> McpView {
        McpView {
            host: self.host@,
            port: self.port,
            base_url: opt_view(self.base_url),
            token: secret_view(self.token),
            token_file: opt_view(self.token_file),
            auth_mode: self.auth_mode@,
            oauth_pin: secret_view(self.oauth_pin),
            oauth_pin_file: opt_view(self.oauth_pin_file),
            oauth_token_expiry_secs: self.oauth_token_expiry_secs,
            oauth_auth_code_ttl_secs: self.oauth_auth_code_ttl_secs,
            oauth_csrf_nonce_ttl_secs: self.oauth_csrf_nonce_ttl_secs,
            oauth_sweep_interval_secs: self.oauth_sweep_interval_secs,
            cors_origins: strings_view(self.oauth_cors.origins@),
            max_response_bytes: self.max_response_bytes,
            oauth_allow_insecure_http: self.oauth_allow_insecure_http,
            allowed_hosts: strings_view(self.allowed_hosts@),
        }
    }
}

/// The default hosts accepted by the HTTP transport: the loopback names.
pub open spec fn default_allowed_hosts() -> Seq<Seq<char>> {
    seq!["localhost"@, "127.0.0.1"@, "::1"@]
}

/// The default hosts accepted by the HTTP transport.
fn default_hosts() -> (r: Vec<String>)
    ensures
        strings_view(r@) == default_allowed_hosts(),
{
    let mut hosts: Vec<String> = Vec::new();
    hosts.push(String::from_str("localhost"));
    hosts.push(String::from_str("127.0.0.1"));
    hosts.push(String::from_str("::1"));
    assert(strings_view(hosts@) =~= default_allowed_hosts());
    hosts
}

/// The built-in MCP settings.
pub open spec fn default_mcp() -> McpView {
    McpView {
        host: DEFAULT_MCP_HOST@,
        port: DEFAULT_MCP_PORT,
        base_url: None,
        token: None,
        token_file: None,
        auth_mode: DEFAULT_MCP_AUTH_MODE@,
        oauth_pin: None,
        oauth_pin_file: None,
        oauth_token_expiry_secs: DEFAULT_OAUTH_TOKEN_EXPIRY_SECS,
        oauth_auth_code_ttl_secs: DEFAULT_OAUTH_AUTH_CODE_TTL_SECS,
        oauth_csrf_nonce_ttl_secs: DEFAULT_OAUTH_CSRF_NONCE_TTL_SECS,
        oauth_sweep_interval_secs: DEFAULT_OAUTH_SWEEP_INTERVAL_SECS,
        cors_origins: default_cors_origins(),
        max_response_bytes: DEFAULT_MAX_RESPONSE_BYTES,
        oauth_allow_insecure_http: false,
        allowed_hosts: default_allowed_hosts(),
    }
}

impl Default for McpConfig {
    fn default() -> (c: Self)
        ensures
            c@ == default_mcp(),
    {
        McpConfig {
            host: String::from_str(DEFAULT_MCP_HOST),
            port: DEFAULT_MCP_PORT,
            base_url: None,
            token: None,
            token_file: None,
            auth_mode: String::from_str(DEFAULT_MCP_AUTH_MODE),
            oauth_pin: None,
            oauth_pin_file: None,
            oauth_token_expiry_secs: DEFAULT_OAUTH_TOKEN_EXPIRY_SECS,
            oauth_auth_code_ttl_secs: DEFAULT_OAUTH_AUTH_CODE_TTL_SECS,
            oauth_csrf_nonce_ttl_secs: DEFAULT_OAUTH_CSRF_NONCE_TTL_SECS,
            oauth_sweep_interval_secs: DEFAULT_OAUTH_SWEEP_INTERVAL_SECS,
            oauth_cors: OAuthCorsConfig::default(),
            max_response_bytes: DEFAULT_MAX_RESPONSE_BYTES,
            oauth_allow_insecure_http: false,
            allowed_hosts: default_hosts(),
        }
    }
}

impl Clone for McpConfig {
    fn clone(&self) -> (c: Self)
        ensures
            c@ == self@,
    {
        McpConfig {
            host: self.host.clone(),
            port: self.port,
            base_url: clone_opt(&self.base_url),
            token: clone_secret(&self.token),
            token_file: clone_opt(&self.token_file),
            auth_mode: self.auth_mode.clone(),
            oauth_pin: clone_secret(&self.oauth_pin),
            oauth_pin_file: clone_opt(&self.oauth_pin_file),
            oauth_token_expiry_secs: self.oauth_token_expiry_secs,
            oauth_auth_code_ttl_secs: self.oauth_auth_code_ttl_secs,
            oauth_csrf_nonce_ttl_secs: self.oauth_csrf_nonce_ttl_secs,
            oauth_sweep_interval_secs: self.oauth_sweep_interval_secs,
            oauth_cors: self.oauth_cors.clone(),
            max_response_bytes: self.max_response_bytes,
            oauth_allow_insecure_http: self.oauth_allow_insecure_http,
            allowed_hosts: clone_strings(&self.allowed_hosts),
        }
    }
}

/// Full server configuration.
pub struct ServerConfig {
    /// Upstream API client config.
    pub core: Config,
    /// MCP server settings.
    pub mcp: McpConfig,
}

impl Default for ServerConfig {
    fn default() -> (c: Self)
        ensures
            c.core@ == crate::config::default_config(),
            c.mcp@ == default_mcp(),
    {
        ServerConfig { core: Config::default(), mcp: McpConfig::default() }
    }
}

impl Clone for ServerConfig {
    fn clone(&self) -> (c: Self)
        ensures
            c.core@ == self.core@,
            c.mcp@ == self.mcp@,
    {
        ServerConfig { core: self.core.clone(), mcp: self.mcp.clone() }
    }
}

impl OAuthStoreConfig {
    /// The store lifetimes the MCP settings ask for.
    pub fn from_mcp_config(mcp: &McpConfig) -> (c: Self)
        ensures
            c.auth_code_ttl_secs == mcp.oauth_auth_code_ttl_secs,
            c.csrf_nonce_ttl_secs == mcp.oauth_csrf_nonce_ttl_secs,
            c.token_expiry_secs == mcp.oauth_token_expiry_secs,
    {
        OAuthStoreConfig {
            auth_code_ttl_secs: mcp.oauth_auth_code_ttl_secs,
            csrf_nonce_ttl_secs: mcp.oauth_csrf_nonce_ttl_secs,
            token_expiry_secs: mcp.oauth_token_expiry_secs,
        }
    }
}

/// The pieces of `s` between commas.
pub open spec fn comma_pieces(s: Seq<char>) -> Seq<Seq<char>> {
    split_pieces(s, ',')
}

/// The trimmed, non-empty pieces, in order.
pub open spec fn trimmed_nonempty(pieces: Seq<Seq<char>>) -> Seq<Seq<char>>
    decreases pieces.len(),
{
    if pieces.len() == 0 {
        seq![]
    } else {
        let rest = trimmed_nonempty(pieces.drop_last());
        let t = trim(pieces.last());
        if t.len() > 0 {
            rest.push(t)
        } else {
            rest
        }
    }
}

/// The origins listed in a comma-separated value, trimmed, empty ones dropped.
pub open spec fn origins_from_csv(s: Seq<char>) -> Seq<Seq<char>> {
    trimmed_nonempty(comma_pieces(s))
}

/// The origins listed in the comma-separated `csv`.
pub fn parse_origins(csv: &str) -> (r: Vec<String>)
    ensures
        strings_view(r@) == origins_from_csv(csv@),
{
    let pieces = split_str(csv, ',');
    assert(strings_view(pieces@) =~= pieces@.map_values(|p: String| p@));
    let ghost all = strings_view(pieces@);
    let mut kept: Vec<String> = Vec::new();
    let n = pieces.len();
    let mut i: usize = 0;
    assert(all.subrange(0, 0) =~= Seq::<Seq<char>>::empty());
    while i < n
        invariant
            i <= n,
            n == pieces@.len(),
            all == strings_view(pieces@),
            strings_view(kept@) == trimmed_nonempty(all.subrange(0, i as int)),
        decreases n - i,
    {
        assert(all.subrange(0, i + 1).drop_last() =~= all.subrange(0, i as int));
        assert(all.subrange(0, i + 1).last() == pieces@[i as int]@);
        let t = trim_str(pieces[i].as_str());
        let ghost before = strings_view(kept@);
        if !t.as_str().is_empty() {
            kept.push(t);
            assert(strings_view(kept@) =~= before.push(t@));
        }
        i = i + 1;
    }
    assert(all.subrange(0, n as int) =~= all);
    kept
}

/// Rust's `Debug` rendering of a string: quoted, with special characters
/// escaped.
pub uninterp spec fn debug_quoted(s: Seq<char>) -> Seq<char>;

/// `format!("{:?}", s)`: the named `Debug` rendering of the string.
#[verifier::external_body]
pub(crate) fn debug_str(s: &str) -> (r: String)
    ensures
        r@ == debug_quoted(s@),
{
    format!("{:?}", s)
}

/// The message of a failed integer parse, as `ParseIntError` displays it.
pub open spec fn int_error_text(kind: IntErrorKind) -> Seq<char> {
    match kind {
        IntErrorKind::Empty => "cannot parse integer from empty string"@,
        IntErrorKind::InvalidDigit => "invalid digit found in string"@,
        IntErrorKind::PosOverflow => "number too large to fit in target type"@,
    }
}

/// The message of a failed integer parse.
pub fn int_error_message(kind: IntErrorKind) -> (r: String)
    ensures
        r@ == int_error_text(kind),
{
    match kind {
        IntErrorKind::Empty => String::from_str("cannot parse integer from empty string"),
        IntErrorKind::InvalidDigit => String::from_str("invalid digit found in string"),
        IntErrorKind::PosOverflow => String::from_str("number too large to fit in target type"),
    }
}

/// The error for a `MYAPP_MCP_PORT` value that is not a port number.
pub open spec fn port_error_text(raw: Seq<char>, kind: IntErrorKind) -> Seq<char> {
    "invalid MYAPP_MCP_PORT value "@ + debug_quoted(raw) + ": "@ + int_error_text(kind)
}

/// `v` as a `usize`, saturating at `usize::MAX`.
pub open spec fn saturate_usize(v: u64) -> usize {
    if v <= usize::MAX {
        v as usize
    } else {
        usize::MAX
    }
}

/// The overrides of the token, token file, base URL, auth mode, PIN and PIN
/// file. A secret set in the environment replaces the one from the file
/// settings, whichever form either takes; when both the inline and the file
/// form of a secret are set in the environment, the inline one wins.
pub open spec fn mcp_env_auth<E: Env>(m: McpView, env: &E) -> McpView {
    let m1 = match env_value(env, "MYAPP_MCP_TOKEN_FILE"@) {
        Some(v) => McpView { token: None, token_file: Some(v), ..m },
        None => m,
    };
    let m2 = match env_value(env, "MYAPP_MCP_TOKEN"@) {
        Some(v) => McpView { token: Some(v), token_file: None, ..m1 },
        None => m1,
    };
    let m3 = match env_value(env, "MYAPP_MCP_BASE_URL"@) {
        Some(v) => McpView { base_url: Some(v), ..m2 },
        None => m2,
    };
    let m4 = match env_value(env, "MYAPP_MCP_AUTH_MODE"@) {
        Some(v) => McpView { auth_mode: v, ..m3 },
        None => m3,
    };
    let m5 = match env_value(env, "MYAPP_MCP_OAUTH_PIN_FILE"@) {
        Some(v) => McpView { oauth_pin: None, oauth_pin_file: Some(v), ..m4 },
        None => m4,
    };
    match env_value(env, "MYAPP_MCP_OAUTH_PIN"@) {
        Some(v) => McpView { oauth_pin: Some(v), oauth_pin_file: None, ..m5 },
        None => m5,
    }
}

/// The overrides of the OAuth lifetimes, the CORS origins and the response cap.
pub open spec fn mcp_env_limits<E: Env>(m: McpView, env: &E) -> McpView {
    let m7 = match env_u64(env, "MYAPP_MCP_OAUTH_TOKEN_EXPIRY_SECS"@) {
        Some(v) => McpView { oauth_token_expiry_secs: v, ..m },
        None => m,
    };
    let m8 = match env_u64(env, "MYAPP_MCP_OAUTH_AUTH_CODE_TTL_SECS"@) {
        Some(v) => McpView { oauth_auth_code_ttl_secs: v, ..m7 },
        None => m7,
    };
    let m9 = match env_u64(env, "MYAPP_MCP_OAUTH_CSRF_NONCE_TTL_SECS"@) {
        Some(v) => McpView { oauth_csrf_nonce_ttl_secs: v, ..m8 },
        None => m8,
    };
    let m10 = match env_u64(env, "MYAPP_MCP_OAUTH_SWEEP_INTERVAL_SECS"@) {
        Some(v) => McpView { oauth_sweep_interval_secs: v, ..m9 },
        None => m9,
    };
    let m11 = match env_value(env, "MYAPP_MCP_OAUTH_CORS_ORIGINS"@) {
        Some(v) => McpView { cors_origins: origins_from_csv(v), ..m10 },
        None => m10,
    };
    let m12 = match env_u64(env, "MYAPP_MCP_MAX_RESPONSE_BYTES"@) {
        Some(v) => McpView { max_response_bytes: saturate_usize(v), ..m11 },
        None => m11,
    };
    match env_value(env, "MYAPP_MCP_ALLOWED_HOSTS"@) {
        Some(v) => McpView { allowed_hosts: origins_from_csv(v), ..m12 },
        None => m12,
    }
}

/// The overrides after the port.
pub open spec fn mcp_env_rest<E: Env>(m: McpView, env: &E) -> McpView {
    mcp_env_limits(mcp_env_auth(m, env), env)
}

/// The MCP settings with the host override applied.
pub open spec fn mcp_env_host<E: Env>(m: McpView, env: &E) -> McpView {
    match env_value(env, "MYAPP_MCP_HOST"@) {
        Some(h) => McpView { host: h, ..m },
        None => m,
    }
}

/// The MCP settings after the `MYAPP_MCP_*` overrides, or the error for a
/// `MYAPP_MCP_PORT` that is not a port number.
pub open spec fn mcp_env_applied<E: Env>(m: McpView, env: &E) -> Result<McpView, Seq<char>> {
    let m1 = mcp_env_host(m, env);
    match env_value(env, "MYAPP_MCP_PORT"@) {
        Some(raw) => match parse_unsigned(raw, u16::MAX as int) {
            Err(kind) => Err(port_error_text(raw, kind)),
            Ok(p) => Ok(mcp_env_rest(McpView { port: p as u16, ..m1 }, env)),
        },
        None => Ok(mcp_env_rest(m1, env)),
    }
}

fn apply_mcp_env_auth<E: Env>(mcp: &mut McpConfig, env: &E)
    ensures
        final(mcp)@ == mcp_env_auth(old(mcp)@, env),
{
    if let Some(val) = env_non_empty(env, "MYAPP_MCP_TOKEN_FILE") {
        mcp.token = None;
        mcp.token_file = Some(val);
    }
    if let Some(val) = env_non_empty(env, "MYAPP_MCP_TOKEN") {
        mcp.token = Some(SecretString::from(val));
        mcp.token_file = None;
    }
    if let Some(val) = env_non_empty(env, "MYAPP_MCP_BASE_URL") {
        mcp.base_url = Some(val);
    }
    if let Some(val) = env_non_empty(env, "MYAPP_MCP_AUTH_MODE") {
        mcp.auth_mode = val;
    }
    if let Some(val) = env_non_empty(env, "MYAPP_MCP_OAUTH_PIN_FILE") {
        mcp.oauth_pin = None;
        mcp.oauth_pin_file = Some(val);
    }
    if let Some(val) = env_non_empty(env, "MYAPP_MCP_OAUTH_PIN") {
        mcp.oauth_pin = Some(SecretString::from(val));
        mcp.oauth_pin_file = None;
    }
}

fn apply_mcp_env_limits<E: Env>(mcp: &mut McpConfig, env: &E)
    ensures
        final(mcp)@ == mcp_env_limits(old(mcp)@, env),
{
    if let Some(val) = env_non_empty_u64(env, "MYAPP_MCP_OAUTH_TOKEN_EXPIRY_SECS") {
        mcp.oauth_token_expiry_secs = val;
    }
    if let Some(val) = env_non_empty_u64(env, "MYAPP_MCP_OAUTH_AUTH_CODE_TTL_SECS") {
        mcp.oauth_auth_code_ttl_secs = val;
    }
    if let Some(val) = env_non_empty_u64(env, "MYAPP_MCP_OAUTH_CSRF_NONCE_TTL_SECS") {
        mcp.oauth_csrf_nonce_ttl_secs = val;
    }
    if let Some(val) = env_non_empty_u64(env, "MYAPP_MCP_OAUTH_SWEEP_INTERVAL_SECS") {
        mcp.oauth_sweep_interval_secs = val;
    }
    if let Some(origins_csv) = env_non_empty(env, "MYAPP_MCP_OAUTH_CORS_ORIGINS") {
        mcp.oauth_cors.origins = parse_origins(origins_csv.as_str());
    }
    if let Some(val) = env_non_empty_u64(env, "MYAPP_MCP_MAX_RESPONSE_BYTES") {
        mcp.max_response_bytes = if val > usize::MAX as u64 { usize::MAX } else { val as usize };
    }
    if let Some(hosts_csv) = env_non_empty(env, "MYAPP_MCP_ALLOWED_HOSTS") {
        mcp.allowed_hosts = parse_origins(hosts_csv.as_str());
    }
}

/// Applies the `MYAPP_MCP_*` environment overrides to `mcp`. A `MYAPP_MCP_PORT`
/// that is not a port number is an error (the host override has then been
/// applied, nothing else).
pub fn apply_mcp_env<E: Env>(mcp: &mut McpConfig, env: &E) -> (r: Result<(), String>)
    ensures
        match r {
            Ok(()) => mcp_env_applied(old(mcp)@, env) == Ok::<McpView, Seq<char>>(final(mcp)@),
            Err(msg) => mcp_env_applied(old(mcp)@, env) == Err::<McpView, Seq<char>>(msg@)
                && final(mcp)@ == mcp_env_host(old(mcp)@, env),
        },
{
    if let Some(host) = env_non_empty(env, "MYAPP_MCP_HOST") {
        mcp.host = host;
    }
    if let Some(raw_port) = env_non_empty(env, "MYAPP_MCP_PORT") {
        match parse_u16(raw_port.as_str()) {
            Ok(p) => {
                mcp.port = p;
            },
            Err(kind) => {
                let mut msg = String::from_str("invalid MYAPP_MCP_PORT value ");
                let quoted = debug_str(raw_port.as_str());
                push_str(&mut msg, quoted.as_str());
                push_str(&mut msg, ": ");
                let text = int_error_message(kind);
                push_str(&mut msg, text.as_str());
                return Err(msg);
            },
        }
    }
    apply_mcp_env_auth(mcp, env);
    apply_mcp_env_limits(mcp, env);
    Ok(())
}

/// Decides how a `*_file` secret reference is resolved: with no file nothing
/// is to be read; a file alongside an inline value is an error; otherwise
/// the file's path is handed back, to be read and trimmed into the slot.
pub fn resolve_secret(slot: &Option<SecretString>, file_path: Option<String>, field: &str) -> (r: Result<
    Option<String>,
    String,
>)
    ensures
        match file_path {
            None => r matches Ok(p) && p is None,
            Some(path) => if slot.is_some() {
                r matches Err(msg) && msg@ == "set either "@ + field@ + " or "@ + field@ + "_file, not both"@
            } else {
                r matches Ok(p) && opt_view(p) == Some(path@)
            },
        },
{
    let path = match file_path {
        Some(p) => p,
        None => {
            return Ok(None);
        },
    };
    if slot.is_some() {
        let mut msg = String::from_str("set either ");
        push_str(&mut msg, field);
        push_str(&mut msg, " or ");
        push_str(&mut msg, field);
        push_str(&mut msg, "_file, not both");
        return Err(msg);
    }
    Ok(Some(path))
}

/// `Debug` of an optional string: `Some("...")` or `None`.
pub open spec fn debug_opt(o: Option<Seq<char>>) -> Seq<char> {
    match o {
        Some(v) => "Some("@ + debug_quoted(v) + ")"@,
        None => "None"@,
    }
}

/// `Debug` of a secret that may be set: `Some("[REDACTED]")` or `None`,
/// whatever the secret.
pub open spec fn debug_redacted(set: bool) -> Seq<char> {
    if set {
        "Some("@ + debug_quoted("[REDACTED]"@) + ")"@
    } else {
        "None"@
    }
}

/// `Debug` of a list of strings: `["a", "b"]`.
pub open spec fn debug_list(items: Seq<Seq<char>>) -> Seq<char> {
    "["@ + join(items.map_values(|s: Seq<char>| debug_quoted(s)), ", "@) + "]"@
}

/// The debug rendering of MCP settings: every field but the secret files and
/// the insecure-HTTP switch, with the token and the PIN redacted.
pub open spec fn mcp_debug_text(m: McpView) -> Seq<char> {
    "McpConfig { host: "@ + debug_quoted(m.host) + ", port: "@ + decimal(m.port as nat) + ", base_url: "@
        + debug_opt(m.base_url) + ", token: "@ + debug_redacted(m.token is Some) + ", auth_mode: "@
        + debug_quoted(m.auth_mode) + ", oauth_pin: "@ + debug_redacted(m.oauth_pin is Some)
        + ", oauth_token_expiry_secs: "@ + decimal(m.oauth_token_expiry_secs as nat)
        + ", oauth_auth_code_ttl_secs: "@ + decimal(m.oauth_auth_code_ttl_secs as nat)
        + ", oauth_csrf_nonce_ttl_secs: "@ + decimal(m.oauth_csrf_nonce_ttl_secs as nat)
        + ", oauth_sweep_interval_secs: "@ + decimal(m.oauth_sweep_interval_secs as nat)
        + ", oauth_cors: OAuthCorsConfig { origins: "@ + debug_list(m.cors_origins) + " }, max_response_bytes: "@
        + decimal(m.max_response_bytes as nat) + " }"@
}

fn push_debug_opt(out: &mut String, o: &Option<String>)
    ensures
        final(out)@ == old(out)@ + debug_opt(opt_view(*o)),
{
    match o {
        Some(v) => {
            push_str(out, "Some(");
            let q = debug_str(v.as_str());
            push_str(out, q.as_str());
            push_str(out, ")");
        },
        None => push_str(out, "None"),
    }
}

fn push_debug_redacted(out: &mut String, set: bool)
    ensures
        final(out)@ == old(out)@ + debug_redacted(set),
{
    if set {
        push_str(out, "Some(");
        let q = debug_str("[REDACTED]");
        push_str(out, q.as_str());
        push_str(out, ")");
    } else {
        push_str(out, "None");
    }
}

fn debug_list_text(items: &Vec<String>) -> (r: String)
    ensures
        r@ == debug_list(strings_view(items@)),
{
    let ghost all = strings_view(items@);
    let mut quoted: Vec<String> = Vec::new();
    let mut i: usize = 0;
    while i < items.len()
        invariant
            i <= items@.len(),
            all == strings_view(items@),
            quoted@.map_values(|p: String| p@) == all.subrange(0, i as int).map_values(
                |s: Seq<char>| debug_quoted(s),
            ),
        decreases items@.len() - i,
    {
        let ghost before = quoted@.map_values(|p: String| p@);
        let q = debug_str(items[i].as_str());
        assert(all[i as int] == items@[i as int]@);
        assert(all.subrange(0, i + 1) =~= all.subrange(0, i as int).push(all[i as int]));
        assert(all.subrange(0, i + 1).map_values(|s: Seq<char>| debug_quoted(s)) =~= all.subrange(
            0,
            i as int,
        ).map_values(|s: Seq<char>| debug_quoted(s)).push(debug_quoted(all[i as int])));
        quoted.push(q);
        assert(quoted@.map_values(|p: String| p@) =~= all.subrange(0, i + 1).map_values(
            |s: Seq<char>| debug_quoted(s),
        ));
        i = i + 1;
    }
    assert(all.subrange(0, i as int) =~= all);
    let joined = join_strings(&quoted, ", ");
    let mut out = String::from_str("[");
    push_str(&mut out, joined.as_str());
    push_str(&mut out, "]");
    out
}

impl McpConfig {
    /// The debug rendering: secrets are shown as `[REDACTED]`.
    pub fn debug_text(&self) -> (r: String)
        ensures
            r@ == mcp_debug_text(self@),
    {
        let mut out = String::from_str("McpConfig { host: ");
        let host = debug_str(self.host.as_str());
        push_str(&mut out, host.as_str());
        push_str(&mut out, ", port: ");
        write_decimal(&mut out, self.port as u64);
        push_str(&mut out, ", base_url: ");
        push_debug_opt(&mut out, &self.base_url);
        push_str(&mut out, ", token: ");
        push_debug_redacted(&mut out, self.token.is_some());
        push_str(&mut out, ", auth_mode: ");
        let mode = debug_str(self.auth_mode.as_str());
        push_str(&mut out, mode.as_str());
        push_str(&mut out, ", oauth_pin: ");
        push_debug_redacted(&mut out, self.oauth_pin.is_some());
        push_str(&mut out, ", oauth_token_expiry_secs: ");
        write_decimal(&mut out, self.oauth_token_expiry_secs);
        push_str(&mut out, ", oauth_auth_code_ttl_secs: ");
        write_decimal(&mut out, self.oauth_auth_code_ttl_secs);
        push_str(&mut out, ", oauth_csrf_nonce_ttl_secs: ");
        write_decimal(&mut out, self.oauth_csrf_nonce_ttl_secs);
        push_str(&mut out, ", oauth_sweep_interval_secs: ");
        write_decimal(&mut out, self.oauth_sweep_interval_secs);
        push_str(&mut out, ", oauth_cors: OAuthCorsConfig { origins: ");
        let origins = debug_list_text(&self.oauth_cors.origins);
        push_str(&mut out, origins.as_str());
        push_str(&mut out, " }, max_response_bytes: ");
        write_decimal(&mut out, self.max_response_bytes as u64);
        push_str(&mut out, " }");
        out
    }

    /// Sets the bearer token from the contents of its file, trimmed.
    pub fn fill_token(&mut self, raw: &str)
        ensures
            final(self)@ == (McpView { token: Some(trim(raw@)), ..old(self)@ }),
    {
        self.token = Some(crate::config::secret_from_file_contents(raw));
    }

    /// Sets the OAuth PIN from the contents of its file, trimmed.
    pub fn fill_oauth_pin(&mut self, raw: &str)
        ensures
            final(self)@ == (McpView { oauth_pin: Some(trim(raw@)), ..old(self)@ }),
    {
        self.oauth_pin = Some(crate::config::secret_from_file_contents(raw));
    }
}

/// The debug rendering of MCP settings does not depend on the values of the
/// token and the PIN, only on whether they are set.
pub proof fn lemma_debug_hides_secrets(a: McpView, b: McpView)
    requires
        a.token is Some == b.token is Some,
        a.oauth_pin is Some == b.oauth_pin is Some,
        (McpView { token: None, oauth_pin: None, ..a }) == (McpView { token: None, oauth_pin: None, ..b }),
    ensures
        mcp_debug_text(a) == mcp_debug_text(b),
{
    assert(a.host == b.host);
    assert(a.cors_origins == b.cors_origins);
}

/// An environment override that is set (and not empty) wins over the file
/// and the defaults: host, port, auth mode, token, base URL and PIN take
/// the environment's value; a token or PIN file named in the environment
/// replaces the secret from the file settings, and yields to the inline
/// value when both are set in the environment; a `MYAPP_MCP_PORT` that is no port number is
/// refused, and with no port override the settings are always accepted.
pub proof fn lemma_mcp_env_precedence<E: Env>(m: McpView, env: &E)
    ensures
        mcp_env_applied(m, env) matches Ok(r) ==> {
            &&& env_value(env, "MYAPP_MCP_HOST"@) matches Some(h) ==> r.host == h
            &&& env_value(env, "MYAPP_MCP_HOST"@) is None ==> r.host == m.host
            &&& env_value(env, "MYAPP_MCP_PORT"@) is None ==> r.port == m.port
            &&& env_value(env, "MYAPP_MCP_AUTH_MODE"@) matches Some(a) ==> r.auth_mode == a
            &&& env_value(env, "MYAPP_MCP_TOKEN"@) matches Some(t) ==> r.token == Some(t) && r.token_file is None
            &&& env_value(env, "MYAPP_MCP_TOKEN"@) is None ==> (env_value(env, "MYAPP_MCP_TOKEN_FILE"@) matches Some(
                f,
            ) ==> r.token is None && r.token_file == Some(f))
            &&& env_value(env, "MYAPP_MCP_BASE_URL"@) matches Some(u) ==> r.base_url == Some(u)
            &&& env_value(env, "MYAPP_MCP_OAUTH_PIN"@) matches Some(p) ==> r.oauth_pin == Some(p)
                && r.oauth_pin_file is None
            &&& env_value(env, "MYAPP_MCP_OAUTH_PIN"@) is None ==> (env_value(env, "MYAPP_MCP_OAUTH_PIN_FILE"@) matches Some(
                f,
            ) ==> r.oauth_pin is None && r.oauth_pin_file == Some(f))
            &&& env_u64(env, "MYAPP_MCP_MAX_RESPONSE_BYTES"@) matches Some(v) ==> r.max_response_bytes
                == saturate_usize(v)
        },
        env_value(env, "MYAPP_MCP_PORT"@) matches Some(raw) ==> (mcp_env_applied(m, env) is Ok <==> parse_unsigned(
            raw,
            u16::MAX as int,
        ) is Ok),
        env_value(env, "MYAPP_MCP_PORT"@) matches Some(raw) ==> (parse_unsigned(raw, u16::MAX as int) matches Ok(
            p,
        ) ==> mcp_env_applied(m, env) matches Ok(r) && r.port == p),
        env_value(env, "MYAPP_MCP_PORT"@) is None ==> mcp_env_applied(m, env) is Ok,
{
    let m1 = mcp_env_host(m, env);
    match env_value(env, "MYAPP_MCP_PORT"@) {
        Some(raw) => match parse_unsigned(raw, u16::MAX as int) {
            Ok(p) => {
                crate::text::lemma_parse_unsigned_bound(raw, u16::MAX as int);
                let base = McpView { port: p as u16, ..m1 };
                lemma_env_auth(base, env);
                lemma_env_limits(mcp_env_auth(base, env), env);
            },
            Err(_) => {},
        },
        None => {
            lemma_env_auth(m1, env);
            lemma_env_limits(mcp_env_auth(m1, env), env);
        },
    }
}

/// What the overrides of the secrets, base URL and auth mode change.
proof fn lemma_env_auth<E: Env>(m: McpView, env: &E)
    ensures
        mcp_env_auth(m, env).host == m.host,
        mcp_env_auth(m, env).port == m.port,
        mcp_env_auth(m, env).max_response_bytes == m.max_response_bytes,
        env_value(env, "MYAPP_MCP_AUTH_MODE"@) matches Some(a) ==> mcp_env_auth(m, env).auth_mode == a,
        env_value(env, "MYAPP_MCP_TOKEN"@) matches Some(t) ==> mcp_env_auth(m, env).token == Some(t)
            && mcp_env_auth(m, env).token_file is None,
        env_value(env, "MYAPP_MCP_TOKEN"@) is None ==> (env_value(env, "MYAPP_MCP_TOKEN_FILE"@) matches Some(f)
            ==> mcp_env_auth(m, env).token is None && mcp_env_auth(m, env).token_file == Some(f)),
        env_value(env, "MYAPP_MCP_BASE_URL"@) matches Some(u) ==> mcp_env_auth(m, env).base_url == Some(u),
        env_value(env, "MYAPP_MCP_OAUTH_PIN"@) matches Some(p) ==> mcp_env_auth(m, env).oauth_pin == Some(p)
            && mcp_env_auth(m, env).oauth_pin_file is None,
        env_value(env, "MYAPP_MCP_OAUTH_PIN"@) is None ==> (env_value(env, "MYAPP_MCP_OAUTH_PIN_FILE"@) matches Some(f)
            ==> mcp_env_auth(m, env).oauth_pin is None && mcp_env_auth(m, env).oauth_pin_file == Some(f)),
{
}

/// What the overrides of the limits change.
proof fn lemma_env_limits<E: Env>(m: McpView, env: &E)
    ensures
        mcp_env_limits(m, env).host == m.host,
        mcp_env_limits(m, env).port == m.port,
        mcp_env_limits(m, env).auth_mode == m.auth_mode,
        mcp_env_limits(m, env).token == m.token,
        mcp_env_limits(m, env).base_url == m.base_url,
        mcp_env_limits(m, env).oauth_pin == m.oauth_pin,
        mcp_env_limits(m, env).token_file == m.token_file,
        mcp_env_limits(m, env).oauth_pin_file == m.oauth_pin_file,
        env_u64(env, "MYAPP_MCP_MAX_RESPONSE_BYTES"@) matches Some(v) ==> mcp_env_limits(m, env).max_response_bytes
            == saturate_usize(v),
{
}

} // verus!
