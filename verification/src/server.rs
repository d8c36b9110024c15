//! What the server decides before it serves: the CLI overrides, the public
//! base URL, the transport-security checks, the CORS policy of the OAuth
//! routes, and how the routes are to be authenticated.

use vstd::prelude::*;
use crate::config::ConfigView;
use crate::encoding::{header_text_ok, header_value_ok};
use crate::mcp_config::{McpConfig, McpView, OAuthCorsConfig, ServerConfig};
use crate::secret::SecretString;
use crate::store::{clone_opt, opt_view, strings_view, OAuthStoreConfig};
use crate::text::{decimal, push_str, starts_with, str_eq, write_decimal};

verus! {

/// The address the HTTP transport binds to: its display form (`ip:port`, or
/// `[ip]:port` for IPv6) and whether its IP is a loopback address.
pub struct BindAddress {
    pub text: String,
    pub loopback: bool,
}

/// The text the bind address is parsed from: `host:port`.
pub open spec fn bind_text(m: McpView) -> Seq<char> {
    m.host + ":"@ + decimal(m.port as nat)
}

impl McpConfig {
    /// The text the bind address is parsed from: `host:port`.
    pub fn bind_target(&self) -> (r: String)
        ensures
            r@ == bind_text(self@),
    {
        let mut s = self.host.clone();
        push_str(&mut s, ":");
        write_decimal(&mut s, self.port as u64);
        s
    }
}

/// Whether `s` begins with `p`.
pub open spec fn has_prefix(s: Seq<char>, p: Seq<char>) -> bool {
    p.len() <= s.len() && s.subrange(0, p.len() as int) == p
}

/// The external base URL for OAuth metadata: the configured one, else
/// `http://` and the bind address.
pub open spec fn base_url_for(configured: Option<Seq<char>>, addr: Seq<char>) -> Seq<char> {
    match configured {
        Some(u) => u,
        None => "http://"@ + addr,
    }
}

/// Resolves the external base URL for OAuth metadata.
pub fn resolve_base_url(config: &ServerConfig, addr: &BindAddress) -> (r: String)
    ensures
        r@ == base_url_for(config.mcp@.base_url, addr.text@),
{
    match &config.mcp.base_url {
        Some(u) => u.clone(),
        None => {
            let mut s = String::from_str("http://");
            push_str(&mut s, addr.text.as_str());
            s
        },
    }
}

/// Refusal of `auth_mode = "token"` without a token.
pub open spec fn token_required_text() -> Seq<char> {
    "auth_mode=\"token\" requires a token. Set MYAPP_MCP_TOKEN, pass --token <value>, or add [mcp] token = \"...\" to config.toml"@
}

/// Refusal of `auth_mode = "none"` off loopback.
pub open spec fn loopback_only_text(addr: Seq<char>) -> Seq<char> {
    "auth_mode=\"none\" is only allowed on loopback addresses. Current bind address: "@ + addr
}

/// Refusal of a wildcard CORS origin under `auth_mode = "oauth"`.
pub open spec fn wildcard_cors_text() -> Seq<char> {
    "auth_mode=\"oauth\" refuses a wildcard CORS origin (\"*\"): it would let any website drive the OAuth flow. Set [mcp.oauth_cors] origins to an explicit allow-list."@
}

/// Refusal of OAuth over plain HTTP off loopback.
pub open spec fn plaintext_oauth_text(addr: Seq<char>) -> Seq<char> {
    "auth_mode=\"oauth\" over plain HTTP on a non-loopback address ("@ + addr
        + ") is refused: OAuth tokens and PKCE would traverse the network unencrypted. Serve HTTPS (set [mcp] base_url to an https:// URL) or, on a trusted private network, set [mcp] oauth_allow_insecure_http = true."@
}

/// Refusal of an auth mode that is none of the three.
pub open spec fn unknown_mode_text(mode: Seq<char>) -> Seq<char> {
    "Unknown auth_mode: "@ + mode + ". Use \"token\", \"oauth\", or \"none\""@
}

/// Whether the configured auth mode is safe for the bind address:
/// `token` needs a token; `none` is allowed on loopback only; `oauth`
/// refuses a wildcard CORS origin, and plain HTTP off loopback unless
/// `oauth_allow_insecure_http` is set; any other mode is unknown.
pub open spec fn transport_check(m: McpView, addr: Seq<char>, loopback: bool) -> Result<(), Seq<char>> {
    if m.auth_mode == "token"@ {
        if m.token is None {
            Err(token_required_text())
        } else {
            Ok(())
        }
    } else if m.auth_mode == "none"@ {
        if !loopback {
            Err(loopback_only_text(addr))
        } else {
            Ok(())
        }
    } else if m.auth_mode == "oauth"@ {
        if m.cors_origins.contains("*"@) {
            Err(wildcard_cors_text())
        } else if !has_prefix(base_url_for(m.base_url, addr), "https://"@) && !loopback
            && !m.oauth_allow_insecure_http {
            Err(plaintext_oauth_text(addr))
        } else {
            Ok(())
        }
    } else {
        Err(unknown_mode_text(m.auth_mode))
    }
}

/// Whether `origins` holds the wildcard `*`.
fn has_wildcard(origins: &Vec<String>) -> (r: bool)
    ensures
        r == strings_view(origins@).contains("*"@),
{
    let mut i: usize = 0;
    while i < origins.len()
        invariant
            i <= origins.len(),
            forall|k: int| 0 <= k < i ==> #[trigger] strings_view(origins@)[k] != "*"@,
        decreases origins.len() - i,
    {
        if str_eq(origins[i].as_str(), "*") {
            assert(strings_view(origins@)[i as int] == "*"@);
            return true;
        }
        i = i + 1;
    }
    false
}

/// Validates that the configured auth mode is safe for the bind address
/// before the server starts, failing with an actionable message otherwise.
pub fn validate_transport_security(config: &ServerConfig, addr: &BindAddress) -> (r: Result<(), String>)
    ensures
        match r {
            Ok(()) => transport_check(config.mcp@, addr.text@, addr.loopback) is Ok,
            Err(msg) => transport_check(config.mcp@, addr.text@, addr.loopback) == Err::<(), Seq<char>>(msg@),
        },
{
    let mode = config.mcp.auth_mode.as_str();
    if str_eq(mode, "token") {
        if config.mcp.token.is_none() {
            return Err(
                String::from_str(
                    "auth_mode=\"token\" requires a token. Set MYAPP_MCP_TOKEN, pass --token <value>, or add [mcp] token = \"...\" to config.toml",
                ),
            );
        }
        Ok(())
    } else if str_eq(mode, "none") {
        if !addr.loopback {
            let mut msg = String::from_str("auth_mode=\"none\" is only allowed on loopback addresses. Current bind address: ");
            push_str(&mut msg, addr.text.as_str());
            return Err(msg);
        }
        Ok(())
    } else if str_eq(mode, "oauth") {
        if has_wildcard(&config.mcp.oauth_cors.origins) {
            return Err(
                String::from_str(
                    "auth_mode=\"oauth\" refuses a wildcard CORS origin (\"*\"): it would let any website drive the OAuth flow. Set [mcp.oauth_cors] origins to an explicit allow-list.",
                ),
            );
        }
        let base_url = resolve_base_url(config, addr);
        let plaintext = !starts_with(base_url.as_str(), "https://");
        if plaintext && !addr.loopback && !config.mcp.oauth_allow_insecure_http {
            let mut msg = String::from_str("auth_mode=\"oauth\" over plain HTTP on a non-loopback address (");
            push_str(&mut msg, addr.text.as_str());
            push_str(
                &mut msg,
                ") is refused: OAuth tokens and PKCE would traverse the network unencrypted. Serve HTTPS (set [mcp] base_url to an https:// URL) or, on a trusted private network, set [mcp] oauth_allow_insecure_http = true.",
            );
            return Err(msg);
        }
        Ok(())
    } else {
        let mut msg = String::from_str("Unknown auth_mode: ");
        push_str(&mut msg, mode);
        push_str(&mut msg, ". Use \"token\", \"oauth\", or \"none\"");
        Err(msg)
    }
}

/// Which origins the OAuth routes answer CORS requests from.
pub enum CorsPolicy {
    /// Every origin (the configured list holds `*`).
    AnyOrigin,
    /// Exactly these origins.
    Origins(Vec<String>),
}

/// The mathematical form of a [`CorsPolicy`].
pub enum CorsView {
    AnyOrigin,
    Origins(Seq<Seq<char>>),
}

impl View for CorsPolicy {
    type V = CorsView;

    open spec fn view(&self) -> CorsView {
        match self {
            CorsPolicy::AnyOrigin => CorsView::AnyOrigin,
            CorsPolicy::Origins(v) => CorsView::Origins(strings_view(v@)),
        }
    }
}

/// The origins of `s` that are valid header values, in order.
pub open spec fn header_origins(s: Seq<Seq<char>>) -> Seq<Seq<char>>
    decreases s.len(),
{
    if s.len() == 0 {
        seq![]
    } else {
        let rest = header_origins(s.drop_last());
        if header_text_ok(s.last()) {
            rest.push(s.last())
        } else {
            rest
        }
    }
}

/// The CORS policy for the configured origins: any origin when `*` is among
/// them, else those origins that can be sent as a header value (the others
/// are dropped).
pub open spec fn cors_for(origins: Seq<Seq<char>>) -> CorsView {
    if origins.contains("*"@) {
        CorsView::AnyOrigin
    } else {
        CorsView::Origins(header_origins(origins))
    }
}

/// Builds the CORS policy of the OAuth routes from [`OAuthCorsConfig`]:
/// `*` allows every origin; otherwise each origin that parses as a header
/// value is allowed.
pub fn cors_policy(cors: &OAuthCorsConfig) -> (p: CorsPolicy)
    ensures
        p@ == cors_for(strings_view(cors.origins@)),
{
    if has_wildcard(&cors.origins) {
        return CorsPolicy::AnyOrigin;
    }
    let ghost all = strings_view(cors.origins@);
    let mut kept: Vec<String> = Vec::new();
    let mut i: usize = 0;
    while i < cors.origins.len()
        invariant
            i <= cors.origins.len(),
            all == strings_view(cors.origins@),
            strings_view(kept@) == header_origins(all.subrange(0, i as int)),
        decreases cors.origins.len() - i,
    {
        let origin = &cors.origins[i];
        assert(all.subrange(0, i + 1).drop_last() =~= all.subrange(0, i as int));
        assert(all.subrange(0, i + 1).last() == origin@);
        if header_value_ok(origin.as_str()) {
            kept.push(origin.clone());
            assert(strings_view(kept@) =~= header_origins(all.subrange(0, i as int)).push(origin@));
        }
        i = i + 1;
    }
    assert(all.subrange(0, i as int) =~= all);
    CorsPolicy::Origins(kept)
}

/// The OAuth settings of the HTTP routes.
pub struct OAuthRoutes {
    /// External base URL used in metadata and redirects.
    pub base_url: String,
    /// URL of the protected-resource metadata, announced to unauthenticated
    /// clients.
    pub resource_metadata_url: String,
    /// Lifetimes of the store's entries.
    pub store_config: OAuthStoreConfig,
    /// Interval between sweeps of expired entries.
    pub sweep_interval_secs: u64,
    /// PIN required on the consent screen, if any.
    pub oauth_pin: Option<String>,
    /// CORS policy of the OAuth routes.
    pub cors: CorsPolicy,
}

/// How the MCP route of the HTTP transport is authenticated.
pub enum RouteAuth {
    /// A static bearer token every request must carry.
    StaticToken(String),
    /// OAuth 2.1 with PKCE, with its own routes.
    OAuth(OAuthRoutes),
    /// No authentication (loopback only).
    Open,
}

/// The path of the protected-resource metadata.
pub open spec fn resource_metadata_path() -> Seq<char> {
    "/.well-known/oauth-protected-resource"@
}

/// What [`plan_routes`] returns when the checks pass, for the settings `m`.
pub open spec fn route_plan_ok(plan: RouteAuth, m: McpView, addr: Seq<char>) -> bool {
    match plan {
        RouteAuth::StaticToken(t) => m.auth_mode == "token"@ && m.token == Some(t@),
        RouteAuth::OAuth(o) => {
            &&& m.auth_mode == "oauth"@
            &&& o.base_url@ == base_url_for(m.base_url, addr)
            &&& o.resource_metadata_url@ == base_url_for(m.base_url, addr) + resource_metadata_path()
            &&& o.store_config.auth_code_ttl_secs == m.oauth_auth_code_ttl_secs
            &&& o.store_config.csrf_nonce_ttl_secs == m.oauth_csrf_nonce_ttl_secs
            &&& o.store_config.token_expiry_secs == m.oauth_token_expiry_secs
            &&& o.sweep_interval_secs == m.oauth_sweep_interval_secs
            &&& opt_view(o.oauth_pin) == m.oauth_pin
            &&& o.cors@ == cors_for(m.cors_origins)
        },
        RouteAuth::Open => m.auth_mode == "none"@,
    }
}

/// Checks the transport security of `config` for `addr` and decides how the
/// HTTP routes are authenticated.
pub fn plan_routes(config: &ServerConfig, addr: &BindAddress) -> (r: Result<RouteAuth, String>)
    ensures
        match r {
            Ok(plan) => transport_check(config.mcp@, addr.text@, addr.loopback) is Ok && route_plan_ok(
                plan,
                config.mcp@,
                addr.text@,
            ),
            Err(msg) => transport_check(config.mcp@, addr.text@, addr.loopback) == Err::<(), Seq<char>>(msg@),
        },
{
    match validate_transport_security(config, addr) {
        Ok(()) => {},
        Err(msg) => {
            return Err(msg);
        },
    }
    let mode = config.mcp.auth_mode.as_str();
    if str_eq(mode, "token") {
        let token = match &config.mcp.token {
            Some(secret) => String::from_str(secret.expose_secret()),
            None => String::new(),
        };
        Ok(RouteAuth::StaticToken(token))
    } else if str_eq(mode, "oauth") {
        let base_url = resolve_base_url(config, addr);
        let mut resource_metadata_url = base_url.clone();
        push_str(&mut resource_metadata_url, "/.well-known/oauth-protected-resource");
        let oauth_pin = match &config.mcp.oauth_pin {
            Some(secret) => Some(String::from_str(secret.expose_secret())),
            None => None,
        };
        Ok(
            RouteAuth::OAuth(
                OAuthRoutes {
                    base_url,
                    resource_metadata_url,
                    store_config: OAuthStoreConfig::from_mcp_config(&config.mcp),
                    sweep_interval_secs: config.mcp.oauth_sweep_interval_secs,
                    oauth_pin,
                    cors: cors_policy(&config.mcp.oauth_cors),
                },
            ),
        )
    } else {
        Ok(RouteAuth::Open)
    }
}

/// The overrides given on the command line; each one set replaces the
/// configured value.
pub struct CliOverrides {
    /// Upstream base URL.
    pub base_url: Option<String>,
    /// API key.
    pub api_key: Option<String>,
    /// Bind host for the HTTP transport.
    pub host: Option<String>,
    /// Bind port for the HTTP transport.
    pub port: Option<u16>,
    /// Static bearer token.
    pub token: Option<String>,
    /// External base URL for OAuth metadata.
    pub mcp_base_url: Option<String>,
    /// Auth mode.
    pub auth_mode: Option<String>,
    /// PIN required on the OAuth consent screen.
    pub oauth_pin: Option<String>,
}

/// `v` when it is set, else `cur`.
pub open spec fn or_keep<T>(v: Option<T>, cur: T) -> T {
    match v {
        Some(x) => x,
        None => cur,
    }
}

/// Applies CLI overrides onto a loaded [`ServerConfig`].
pub fn apply_cli_overrides(config: &mut ServerConfig, args: &CliOverrides)
    ensures
        final(config).core@ == (ConfigView {
            base_url: or_keep(opt_view(args.base_url), old(config).core@.base_url),
            api_key: match args.api_key {
                Some(k) => Some(k@),
                None => old(config).core@.api_key,
            },
            ..old(config).core@
        }),
        final(config).mcp@ == (McpView {
            host: or_keep(opt_view(args.host), old(config).mcp@.host),
            port: or_keep(args.port, old(config).mcp@.port),
            token: match args.token {
                Some(t) => Some(t@),
                None => old(config).mcp@.token,
            },
            base_url: match args.mcp_base_url {
                Some(u) => Some(u@),
                None => old(config).mcp@.base_url,
            },
            auth_mode: or_keep(opt_view(args.auth_mode), old(config).mcp@.auth_mode),
            oauth_pin: match args.oauth_pin {
                Some(p) => Some(p@),
                None => old(config).mcp@.oauth_pin,
            },
            ..old(config).mcp@
        }),
{
    config.core.apply_overrides(clone_opt(&args.base_url), clone_opt(&args.api_key));
    if let Some(host) = &args.host {
        config.mcp.host = host.clone();
    }
    if let Some(port) = args.port {
        config.mcp.port = port;
    }
    if let Some(token) = &args.token {
        config.mcp.token = Some(SecretString::from(token.clone()));
    }
    if let Some(url) = &args.mcp_base_url {
        config.mcp.base_url = Some(url.clone());
    }
    if let Some(mode) = &args.auth_mode {
        config.mcp.auth_mode = mode.clone();
    }
    if let Some(pin) = &args.oauth_pin {
        config.mcp.oauth_pin = Some(SecretString::from(pin.clone()));
    }
}

/// Settings that pass the transport-security check are safe for the bind
/// address: the mode is one of `token`, `oauth`, `none`; `token` has a token;
/// `none` binds to loopback; `oauth` allows no wildcard CORS origin and runs
/// over HTTPS, on loopback, or with the insecure-HTTP switch set.
pub proof fn lemma_transport_safe(m: McpView, addr: Seq<char>, loopback: bool)
    requires
        transport_check(m, addr, loopback) is Ok,
    ensures
        m.auth_mode == "token"@ || m.auth_mode == "oauth"@ || m.auth_mode == "none"@,
        m.auth_mode == "token"@ ==> m.token is Some,
        m.auth_mode == "none"@ ==> loopback,
        m.auth_mode == "oauth"@ ==> !m.cors_origins.contains("*"@),
        m.auth_mode == "oauth"@ ==> has_prefix(base_url_for(m.base_url, addr), "https://"@) || loopback
            || m.oauth_allow_insecure_http,
{
    reveal_strlit("token");
    reveal_strlit("none");
    reveal_strlit("oauth");
    assert("token"@ != "none"@ && "token"@ != "oauth"@ && "none"@ != "oauth"@) by {
        assert("token"@[0] != "none"@[0]);
        assert("token"@[0] != "oauth"@[0]);
        assert("none"@[0] != "oauth"@[0]);
    }
}

} // verus!
