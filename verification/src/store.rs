//! In-memory storage for the OAuth 2.1 server: registered clients,
//! authorization codes, access and refresh tokens, and CSRF nonces, with
//! expiry measured on a monotonic clock.
//!
//! Every operation that reads the clock or draws a random identifier has a
//! companion ending in `_at` that takes the time and the identifiers as
//! arguments and states its result exactly; the operation itself draws them
//! and hands them on.

use vstd::prelude::*;
use crate::text::{push_str, str_eq};
use crate::textmap::TextMap;

verus! {

/// Prefix of client ids.
pub const CLIENT_ID_PREFIX: &'static str = "myapp_cid_";
/// Prefix of client secrets.
pub const CLIENT_SECRET_PREFIX: &'static str = "myapp_cs_";
/// Prefix of CSRF nonces.
pub const CSRF_NONCE_PREFIX: &'static str = "myapp_csrf_";
/// Prefix of authorization codes.
pub const AUTH_CODE_PREFIX: &'static str = "myapp_ac_";
/// Prefix of access tokens.
pub const ACCESS_TOKEN_PREFIX: &'static str = "myapp_at_";
/// Prefix of refresh tokens.
pub const REFRESH_TOKEN_PREFIX: &'static str = "myapp_rt_";

/// The characters of each string.
pub open spec fn strings_view(v: Seq<String>) -> Seq<Seq<char>> {
    v.map_values(|s: String| s@)
}

/// The characters of an optional string.
pub open spec fn opt_view(v: Option<String>) -> Option<Seq<char>> {
    match v {
        Some(s) => Some(s@),
        None => None,
    }
}

/// A copy of a list of strings.
pub fn clone_strings(v: &Vec<String>) -> (r: Vec<String>)
    ensures
        strings_view(r@) == strings_view(v@),
{
    let mut r: Vec<String> = Vec::new();
    let n = v.len();
    let mut i: usize = 0;
    while i < n
        invariant
            i <= n,
            n == v@.len(),
            r@.len() == i,
            forall|j: int| 0 <= j < i ==> (#[trigger] r@[j])@ == v@[j]@,
        decreases n - i,
    {
        r.push(v[i].clone());
        i = i + 1;
    }
    assert(strings_view(r@) =~= strings_view(v@));
    r
}

/// A copy of an optional string.
pub fn clone_opt(v: &Option<String>) -> (r: Option<String>)
    ensures
        opt_view(r) == opt_view(*v),
{
    match v {
        Some(s) => Some(s.clone()),
        None => None,
    }
}

/// Lifetimes of the store's entries.
pub struct OAuthStoreConfig {
    /// How long an authorization code remains valid, in seconds.
    pub auth_code_ttl_secs: u64,
    /// How long a CSRF nonce remains valid, in seconds.
    pub csrf_nonce_ttl_secs: u64,
    /// How long an access token remains valid, in seconds.
    pub token_expiry_secs: u64,
}

impl Clone for OAuthStoreConfig {
    fn clone(&self) -> (r: Self)
        ensures
            r == *self,
    {
        OAuthStoreConfig {
            auth_code_ttl_secs: self.auth_code_ttl_secs,
            csrf_nonce_ttl_secs: self.csrf_nonce_ttl_secs,
            token_expiry_secs: self.token_expiry_secs,
        }
    }
}

impl Default for OAuthStoreConfig {
    fn default() -> (r: Self)
        ensures
            r.auth_code_ttl_secs == 60,
            r.csrf_nonce_ttl_secs == 600,
            r.token_expiry_secs == 3600,
    {
        OAuthStoreConfig { auth_code_ttl_secs: 60, csrf_nonce_ttl_secs: 600, token_expiry_secs: 3600 }
    }
}

/// A dynamically registered OAuth client.
pub struct RegisteredClient {
    pub client_id: String,
    pub client_secret: Option<String>,
    pub client_name: Option<String>,
    pub redirect_uris: Vec<String>,
}

/// The mathematical form of a [`RegisteredClient`].
pub struct ClientView {
    pub client_id: Seq<char>,
    pub client_secret: Option<Seq<char>>,
    pub client_name: Option<Seq<char>>,
    pub redirect_uris: Seq<Seq<char>>,
}

impl View for RegisteredClient {
    type V = ClientView;

    open spec fn view(&self) -> ClientView {
        ClientView {
            client_id: self.client_id@,
            client_secret: opt_view(self.client_secret),
            client_name: opt_view(self.client_name),
            redirect_uris: strings_view(self.redirect_uris@),
        }
    }
}

impl Clone for RegisteredClient {
    fn clone(&self) -> (r: Self)
        ensures
            r@ == self@,
    {
        RegisteredClient {
            client_id: self.client_id.clone(),
            client_secret: clone_opt(&self.client_secret),
            client_name: clone_opt(&self.client_name),
            redirect_uris: clone_strings(&self.redirect_uris),
        }
    }
}

/// A single-use authorization code issued after user consent.
pub struct AuthCode {
    pub client_id: String,
    pub redirect_uri: String,
    pub scope: Vec<String>,
    pub code_challenge: String,
    /// Clock reading (nanoseconds) when the code was issued.
    pub created_at: u128,
}

/// The mathematical form of an [`AuthCode`].
pub struct AuthCodeView {
    pub client_id: Seq<char>,
    pub redirect_uri: Seq<char>,
    pub scope: Seq<Seq<char>>,
    pub code_challenge: Seq<char>,
    pub created_at: u128,
}

impl View for AuthCode {
    type V = AuthCodeView;

    open spec fn view(&self) -> AuthCodeView {
        AuthCodeView {
            client_id: self.client_id@,
            redirect_uri: self.redirect_uri@,
            scope: strings_view(self.scope@),
            code_challenge: self.code_challenge@,
            created_at: self.created_at,
        }
    }
}

impl Clone for AuthCode {
    fn clone(&self) -> (r: Self)
        ensures
            r@ == self@,
    {
        AuthCode {
            client_id: self.client_id.clone(),
            redirect_uri: self.redirect_uri.clone(),
            scope: clone_strings(&self.scope),
            code_challenge: self.code_challenge.clone(),
            created_at: self.created_at,
        }
    }
}

/// An issued access token with associated metadata.
pub struct AccessToken {
    pub token: String,
    pub client_id: String,
    pub scope: Vec<String>,
    /// Clock reading (nanoseconds) when the token was issued.
    pub created_at: u128,
    pub expires_in: u64,
    pub refresh_token: String,
}

/// The mathematical form of an [`AccessToken`].
pub struct AccessTokenView {
    pub token: Seq<char>,
    pub client_id: Seq<char>,
    pub scope: Seq<Seq<char>>,
    pub created_at: u128,
    pub expires_in: u64,
    pub refresh_token: Seq<char>,
}

impl View for AccessToken {
    type V = AccessTokenView;

    open spec fn view(&self) -> AccessTokenView {
        AccessTokenView {
            token: self.token@,
            client_id: self.client_id@,
            scope: strings_view(self.scope@),
            created_at: self.created_at,
            expires_in: self.expires_in,
            refresh_token: self.refresh_token@,
        }
    }
}

impl Clone for AccessToken {
    fn clone(&self) -> (r: Self)
        ensures
            r@ == self@,
    {
        AccessToken {
            token: self.token.clone(),
            client_id: self.client_id.clone(),
            scope: clone_strings(&self.scope),
            created_at: self.created_at,
            expires_in: self.expires_in,
            refresh_token: self.refresh_token.clone(),
        }
    }
}

/// Nanoseconds from `then` to `now`, zero when `now` is earlier.
pub open spec fn elapsed(now: u128, then: u128) -> int {
    if now >= then {
        now - then
    } else {
        0
    }
}

/// Whether no more than `secs` seconds have passed from `then` to `now`.
pub open spec fn within(now: u128, then: u128, secs: u64) -> bool {
    elapsed(now, then) <= secs * 1_000_000_000
}

/// Whether no more than `secs` seconds have passed from `then` to `now`.
pub fn within_secs(now: u128, then: u128, secs: u64) -> (b: bool)
    ensures
        b == within(now, then, secs),
        b == (now <= then || now - then <= secs * 1_000_000_000),
{
    let e: u128 = if now >= then { now - then } else { 0 };
    let limit: u128 = (secs as u128) * 1_000_000_000;
    e <= limit
}


/// The bindings of `m` whose value satisfies `p`.
pub open spec fn keep<V>(m: Map<Seq<char>, V>, p: spec_fn(V) -> bool) -> Map<Seq<char>, V> {
    Map::new(|k: Seq<char>| m.contains_key(k) && p(m[k]), |k: Seq<char>| m[k])
}

/// Whether `k` is among the first `i` strings of `keys`.
pub open spec fn among(keys: Seq<String>, i: int, k: Seq<char>) -> bool {
    exists|j: int| 0 <= j < i && (#[trigger] keys[j])@ == k
}

proof fn lemma_among_step(keys: Seq<String>, i: int, k: Seq<char>)
    requires
        0 <= i < keys.len(),
    ensures
        among(keys, i + 1, k) == (among(keys, i, k) || keys[i]@ == k),
{
    if among(keys, i + 1, k) {
        let j = choose|j: int| 0 <= j < i + 1 && (#[trigger] keys[j])@ == k;
        if j < i {
            assert(among(keys, i, k));
        }
    }
    if keys[i]@ == k {
        assert(0 <= i < i + 1 && keys[i]@ == k);
    }
    if among(keys, i, k) {
        let j = choose|j: int| 0 <= j < i && (#[trigger] keys[j])@ == k;
        assert(0 <= j < i + 1 && keys[j]@ == k);
    }
}

/// Whether an access token among the first `i` of `keys` has expired by
/// `now` and carries the refresh token `r`.
pub open spec fn revoked_by(
    access: Map<Seq<char>, AccessTokenView>,
    now: u128,
    keys: Seq<String>,
    i: int,
    r: Seq<char>,
) -> bool {
    exists|k: Seq<char>|
        among(keys, i, k) && #[trigger] access.contains_key(k) && !within(
            now,
            access[k].created_at,
            access[k].expires_in,
        ) && access[k].refresh_token == r
}

proof fn lemma_revoked_step(
    access: Map<Seq<char>, AccessTokenView>,
    now: u128,
    keys: Seq<String>,
    i: int,
    r: Seq<char>,
)
    requires
        0 <= i < keys.len(),
    ensures
        revoked_by(access, now, keys, i + 1, r) == (revoked_by(access, now, keys, i, r) || (
        access.contains_key(keys[i]@) && !within(
            now,
            access[keys[i]@].created_at,
            access[keys[i]@].expires_in,
        ) && access[keys[i]@].refresh_token == r)),
{
    let k0 = keys[i]@;
    if revoked_by(access, now, keys, i + 1, r) {
        let k = choose|k: Seq<char>|
            among(keys, i + 1, k) && #[trigger] access.contains_key(k) && !within(
                now,
                access[k].created_at,
                access[k].expires_in,
            ) && access[k].refresh_token == r;
        lemma_among_step(keys, i, k);
        if among(keys, i, k) {
            assert(revoked_by(access, now, keys, i, r));
        }
    }
    if revoked_by(access, now, keys, i, r) {
        let k = choose|k: Seq<char>|
            among(keys, i, k) && #[trigger] access.contains_key(k) && !within(
                now,
                access[k].created_at,
                access[k].expires_in,
            ) && access[k].refresh_token == r;
        lemma_among_step(keys, i, k);
        assert(revoked_by(access, now, keys, i + 1, r));
    }
    if access.contains_key(k0) && !within(now, access[k0].created_at, access[k0].expires_in)
        && access[k0].refresh_token == r {
        lemma_among_step(keys, i, k0);
        assert(revoked_by(access, now, keys, i + 1, r));
    }
}

#[verifier::external_type_specification]
#[verifier::external_body]
pub struct ExInstant(std::time::Instant);

/// Reads the monotonic clock (`Instant::now`). Nothing is stated of the
/// reading.
#[verifier::external_body]
fn clock_start() -> std::time::Instant {
    std::time::Instant::now()
}

/// Nanoseconds that have passed since `start` (`Instant::elapsed`, in
/// nanoseconds). The value depends on the time of the call; nothing is stated
/// of it.
#[verifier::external_body]
fn nanos_since(start: &std::time::Instant) -> u128 {
    start.elapsed().as_nanos()
}

/// A random identifier: `Uuid::new_v4()` in its hyphenated text form. Nothing
/// is stated of it; in particular not that it differs from earlier ones.
#[verifier::external_body]
pub(crate) fn random_id() -> String {
    uuid::Uuid::new_v4().to_string()
}

/// `prefix` followed by `suffix`.
fn prefixed(prefix: &str, suffix: &str) -> (r: String)
    ensures
        r@ == prefix@ + suffix@,
{
    let mut r = String::from_str(prefix);
    push_str(&mut r, suffix);
    r
}


/// The mathematical form of an [`OAuthStore`].
pub struct StoreModel {
    pub clients: Map<Seq<char>, ClientView>,
    pub auth_codes: Map<Seq<char>, AuthCodeView>,
    pub access_tokens: Map<Seq<char>, AccessTokenView>,
    pub refresh_tokens: Map<Seq<char>, Seq<char>>,
    pub csrf_nonces: Map<Seq<char>, u128>,
    pub config: OAuthStoreConfig,
}

/// The authorization code an optional code holds.
pub open spec fn opt_code_view(c: Option<AuthCode>) -> Option<AuthCodeView> {
    match c {
        Some(c) => Some(c@),
        None => None,
    }
}

/// The access token an optional token holds.
pub open spec fn opt_token_view(t: Option<AccessToken>) -> Option<AccessTokenView> {
    match t {
        Some(t) => Some(t@),
        None => None,
    }
}

/// Registering a client under `myapp_cid_{id_suffix}` with secret
/// `myapp_cs_{secret_suffix}`.
pub open spec fn register_step(
    m: StoreModel,
    id_suffix: Seq<char>,
    secret_suffix: Seq<char>,
    client_name: Option<Seq<char>>,
    redirect_uris: Seq<Seq<char>>,
) -> (StoreModel, ClientView) {
    let c = ClientView {
        client_id: CLIENT_ID_PREFIX@ + id_suffix,
        client_secret: Some(CLIENT_SECRET_PREFIX@ + secret_suffix),
        client_name,
        redirect_uris,
    };
    (StoreModel { clients: m.clients.insert(c.client_id, c), ..m }, c)
}

/// Whether `redirect_uri` is registered for `client_id`.
pub open spec fn redirect_allowed(m: StoreModel, client_id: Seq<char>, redirect_uri: Seq<char>) -> bool {
    m.clients.contains_key(client_id) && m.clients[client_id].redirect_uris.contains(redirect_uri)
}

/// Issuing the CSRF nonce `myapp_csrf_{suffix}` at `now`.
pub open spec fn create_nonce_step(m: StoreModel, now: u128, suffix: Seq<char>) -> (StoreModel, Seq<char>) {
    let nonce = CSRF_NONCE_PREFIX@ + suffix;
    (StoreModel { csrf_nonces: m.csrf_nonces.insert(nonce, now), ..m }, nonce)
}

/// Consuming the CSRF nonce `nonce` at `now`.
pub open spec fn consume_nonce_step(m: StoreModel, now: u128, nonce: Seq<char>) -> (StoreModel, bool) {
    (
        StoreModel { csrf_nonces: m.csrf_nonces.remove(nonce), ..m },
        m.csrf_nonces.contains_key(nonce) && within(now, m.csrf_nonces[nonce], m.config.csrf_nonce_ttl_secs),
    )
}

/// Issuing the authorization code `myapp_ac_{suffix}` at `now`.
pub open spec fn create_code_step(
    m: StoreModel,
    now: u128,
    suffix: Seq<char>,
    client_id: Seq<char>,
    redirect_uri: Seq<char>,
    scope: Seq<Seq<char>>,
    code_challenge: Seq<char>,
) -> (StoreModel, Seq<char>) {
    let code = AUTH_CODE_PREFIX@ + suffix;
    let c = AuthCodeView { client_id, redirect_uri, scope, code_challenge, created_at: now };
    (StoreModel { auth_codes: m.auth_codes.insert(code, c), ..m }, code)
}

/// Consuming the authorization code `code` at `now`.
pub open spec fn consume_code_step(m: StoreModel, now: u128, code: Seq<char>) -> (StoreModel, Option<AuthCodeView>) {
    (
        StoreModel { auth_codes: m.auth_codes.remove(code), ..m },
        if m.auth_codes.contains_key(code) && within(
            now,
            m.auth_codes[code].created_at,
            m.config.auth_code_ttl_secs,
        ) {
            Some(m.auth_codes[code])
        } else {
            None
        },
    )
}

/// Issuing the access token `myapp_at_{token_suffix}` with refresh token
/// `myapp_rt_{refresh_suffix}` at `now`.
pub open spec fn create_token_step(
    m: StoreModel,
    now: u128,
    token_suffix: Seq<char>,
    refresh_suffix: Seq<char>,
    client_id: Seq<char>,
    scope: Seq<Seq<char>>,
) -> (StoreModel, AccessTokenView) {
    let t = AccessTokenView {
        token: ACCESS_TOKEN_PREFIX@ + token_suffix,
        client_id,
        scope,
        created_at: now,
        expires_in: m.config.token_expiry_secs,
        refresh_token: REFRESH_TOKEN_PREFIX@ + refresh_suffix,
    };
    (
        StoreModel {
            access_tokens: m.access_tokens.insert(t.token, t),
            refresh_tokens: m.refresh_tokens.insert(t.refresh_token, t.token),
            ..m
        },
        t,
    )
}

/// The access token `token` as of `now`, when known and not expired.
pub open spec fn validate_token(m: StoreModel, now: u128, token: Seq<char>) -> Option<AccessTokenView> {
    if m.access_tokens.contains_key(token) && within(
        now,
        m.access_tokens[token].created_at,
        m.access_tokens[token].expires_in,
    ) {
        Some(m.access_tokens[token])
    } else {
        None
    }
}

/// Rotating the refresh token `refresh_token` at `now`, issuing
/// `myapp_at_{token_suffix}` / `myapp_rt_{refresh_suffix}`.
pub open spec fn refresh_step(
    m: StoreModel,
    now: u128,
    token_suffix: Seq<char>,
    refresh_suffix: Seq<char>,
    refresh_token: Seq<char>,
) -> (StoreModel, Option<AccessTokenView>) {
    if !m.refresh_tokens.contains_key(refresh_token) {
        (m, None)
    } else if !m.access_tokens.contains_key(m.refresh_tokens[refresh_token]) {
        (StoreModel { refresh_tokens: m.refresh_tokens.remove(refresh_token), ..m }, None)
    } else {
        let old_key = m.refresh_tokens[refresh_token];
        let prior = m.access_tokens[old_key];
        let fresh = AccessTokenView {
            token: ACCESS_TOKEN_PREFIX@ + token_suffix,
            client_id: prior.client_id,
            scope: prior.scope,
            created_at: now,
            expires_in: prior.expires_in,
            refresh_token: REFRESH_TOKEN_PREFIX@ + refresh_suffix,
        };
        (
            StoreModel {
                access_tokens: m.access_tokens.remove(old_key).insert(fresh.token, fresh),
                refresh_tokens: m.refresh_tokens.remove(refresh_token).insert(fresh.refresh_token, fresh.token),
                ..m
            },
            Some(fresh),
        )
    }
}

/// Removing at `now` what has expired.
pub open spec fn sweep_step(m: StoreModel, now: u128) -> StoreModel {
    StoreModel {
        auth_codes: keep(m.auth_codes, |c: AuthCodeView| within(now, c.created_at, m.config.auth_code_ttl_secs)),
        csrf_nonces: keep(m.csrf_nonces, |t: u128| within(now, t, m.config.csrf_nonce_ttl_secs)),
        access_tokens: keep(m.access_tokens, |t: AccessTokenView| within(now, t.created_at, t.expires_in)),
        refresh_tokens: Map::new(
            |r: Seq<char>|
                m.refresh_tokens.contains_key(r) && !(exists|k: Seq<char>|
                    #[trigger] m.access_tokens.contains_key(k) && !within(
                        now,
                        m.access_tokens[k].created_at,
                        m.access_tokens[k].expires_in,
                    ) && m.access_tokens[k].refresh_token == r),
            |r: Seq<char>| m.refresh_tokens[r],
        ),
        ..m
    }
}

impl View for OAuthStore {
    type V = StoreModel;

    closed spec fn view(&self) -> StoreModel {
        StoreModel {
            clients: self.clients(),
            auth_codes: self.auth_codes(),
            access_tokens: self.access_tokens(),
            refresh_tokens: self.refresh_tokens(),
            csrf_nonces: self.csrf_nonces(),
            config: self.config(),
        }
    }
}

/// In-memory OAuth 2.1 state: registered clients, authorization codes, access
/// tokens, refresh tokens (each naming the access token it renews), and CSRF
/// nonces with their issue times.
pub struct OAuthStore {
    clients: TextMap<RegisteredClient>,
    auth_codes: TextMap<AuthCode>,
    access_tokens: TextMap<AccessToken>,
    refresh_tokens: TextMap<String>,
    csrf_nonces: TextMap<u128>,
    config: OAuthStoreConfig,
    clock: std::time::Instant,
}

impl OAuthStore {
    /// Registered clients by client id.
    pub closed spec fn clients(&self) -> Map<Seq<char>, ClientView> {
        self.clients@.map_values(|c: RegisteredClient| c@)
    }

    /// Outstanding authorization codes by code.
    pub closed spec fn auth_codes(&self) -> Map<Seq<char>, AuthCodeView> {
        self.auth_codes@.map_values(|c: AuthCode| c@)
    }

    /// Issued access tokens by token.
    pub closed spec fn access_tokens(&self) -> Map<Seq<char>, AccessTokenView> {
        self.access_tokens@.map_values(|t: AccessToken| t@)
    }

    /// Refresh tokens, each with the access token it renews.
    pub closed spec fn refresh_tokens(&self) -> Map<Seq<char>, Seq<char>> {
        self.refresh_tokens@.map_values(|t: String| t@)
    }

    /// Outstanding CSRF nonces with their issue times.
    pub closed spec fn csrf_nonces(&self) -> Map<Seq<char>, u128> {
        self.csrf_nonces@
    }

    /// The lifetimes the store was made with.
    pub closed spec fn config(&self) -> OAuthStoreConfig {
        self.config
    }

    /// Create an empty store with the given configuration.
    pub fn new(config: OAuthStoreConfig) -> (s: Self)
        ensures
            s@ == (StoreModel { clients: Map::empty(), auth_codes: Map::empty(), access_tokens: Map::empty(), refresh_tokens: Map::empty(), csrf_nonces: Map::empty(), config }),
            s.clients() == Map::<Seq<char>, ClientView>::empty(),
            s.auth_codes() == Map::<Seq<char>, AuthCodeView>::empty(),
            s.access_tokens() == Map::<Seq<char>, AccessTokenView>::empty(),
            s.refresh_tokens() == Map::<Seq<char>, Seq<char>>::empty(),
            s.csrf_nonces() == Map::<Seq<char>, u128>::empty(),
            s.config() == config,
    {
        let s = OAuthStore {
            clients: TextMap::new(),
            auth_codes: TextMap::new(),
            access_tokens: TextMap::new(),
            refresh_tokens: TextMap::new(),
            csrf_nonces: TextMap::new(),
            config,
            clock: clock_start(),
        };
        assert(s.clients() =~= Map::<Seq<char>, ClientView>::empty());
        assert(s.auth_codes() =~= Map::<Seq<char>, AuthCodeView>::empty());
        assert(s.access_tokens() =~= Map::<Seq<char>, AccessTokenView>::empty());
        assert(s.refresh_tokens() =~= Map::<Seq<char>, Seq<char>>::empty());
        s
    }

    /// The clock reading of this store, in nanoseconds since it was made.
    pub(crate) fn now(&self) -> u128 {
        nanos_since(&self.clock)
    }

    /// Registers a client under the id `myapp_cid_{id_suffix}` with the secret
    /// `myapp_cs_{secret_suffix}`, replacing any client registered under that id.
    pub fn register_client_with(
        &mut self,
        id_suffix: &str,
        secret_suffix: &str,
        client_name: Option<String>,
        redirect_uris: Vec<String>,
    ) -> (c: RegisteredClient)
        ensures
            (final(self)@, c@) == register_step(old(self)@, id_suffix@, secret_suffix@, opt_view(client_name), strings_view(redirect_uris@)),
            c@ == (ClientView {
                client_id: CLIENT_ID_PREFIX@ + id_suffix@,
                client_secret: Some(CLIENT_SECRET_PREFIX@ + secret_suffix@),
                client_name: opt_view(client_name),
                redirect_uris: strings_view(redirect_uris@),
            }),
            final(self).clients() == old(self).clients().insert(c@.client_id, c@),
            final(self).auth_codes() == old(self).auth_codes(),
            final(self).access_tokens() == old(self).access_tokens(),
            final(self).refresh_tokens() == old(self).refresh_tokens(),
            final(self).csrf_nonces() == old(self).csrf_nonces(),
            final(self).config() == old(self).config(),
    {
        let client_id = prefixed(CLIENT_ID_PREFIX, id_suffix);
        let client_secret = prefixed(CLIENT_SECRET_PREFIX, secret_suffix);
        let client = RegisteredClient {
            client_id: client_id.clone(),
            client_secret: Some(client_secret),
            client_name,
            redirect_uris,
        };
        let copy = client.clone();
        self.clients.insert(client_id, client);
        assert(self.clients() =~= old(self).clients().insert(copy@.client_id, copy@));
        copy
    }

    /// Register a new dynamic client and return its credentials.
    pub fn register_client(&mut self, client_name: Option<String>, redirect_uris: Vec<String>) -> (c:
        RegisteredClient)
        ensures
            exists|a: Seq<char>, b: Seq<char>| (final(self)@, c@) == #[trigger] register_step(old(self)@, a, b, opt_view(client_name), strings_view(redirect_uris@)),
            CLIENT_ID_PREFIX@.len() <= c@.client_id.len(),
            c@.client_id.subrange(0, CLIENT_ID_PREFIX@.len() as int) == CLIENT_ID_PREFIX@,
            c@.client_secret is Some,
            c@.client_name == opt_view(client_name),
            c@.redirect_uris == strings_view(redirect_uris@),
            final(self).clients() == old(self).clients().insert(c@.client_id, c@),
            final(self).auth_codes() == old(self).auth_codes(),
            final(self).access_tokens() == old(self).access_tokens(),
            final(self).refresh_tokens() == old(self).refresh_tokens(),
            final(self).csrf_nonces() == old(self).csrf_nonces(),
            final(self).config() == old(self).config(),
    {
        let id = random_id();
        let secret = random_id();
        let c = self.register_client_with(id.as_str(), secret.as_str(), client_name, redirect_uris);
        assert(c@.client_id.subrange(0, CLIENT_ID_PREFIX@.len() as int) =~= CLIENT_ID_PREFIX@);
        c
    }

    /// Check whether `redirect_uri` is registered for the given `client_id`.
    pub fn validate_redirect_uri(&self, client_id: &str, redirect_uri: &str) -> (b: bool)
        ensures
            b == redirect_allowed(self@, client_id@, redirect_uri@),
            b == (self.clients().contains_key(client_id@)
                && self.clients()[client_id@].redirect_uris.contains(redirect_uri@)),
    {
        match self.clients.get(client_id) {
            Some(client) => {
                let uris = &client.redirect_uris;
                let ghost view = strings_view(uris@);
                assert(self.clients()[client_id@] == client@);
                let n = uris.len();
                let mut i: usize = 0;
                while i < n
                    invariant
                        i <= n,
                        n == uris@.len(),
                        view == strings_view(uris@),
                        self.clients().contains_key(client_id@),
                        self.clients()[client_id@].redirect_uris == view,
                        forall|j: int| 0 <= j < i ==> (#[trigger] uris@[j])@ != redirect_uri@,
                    decreases n - i,
                {
                    if str_eq(uris[i].as_str(), redirect_uri) {
                        assert(view[i as int] == redirect_uri@);
                        return true;
                    }
                    i = i + 1;
                }
                proof {
                    if view.contains(redirect_uri@) {
                        let j = choose|j: int| 0 <= j < view.len() && view[j] == redirect_uri@;
                        assert(uris@[j]@ != redirect_uri@);
                    }
                }
                false
            },
            None => false,
        }
    }

    /// Issues the CSRF nonce `myapp_csrf_{suffix}`, stamped with `now`.
    pub fn create_csrf_nonce_with(&mut self, now: u128, suffix: &str) -> (nonce: String)
        ensures
            (final(self)@, nonce@) == create_nonce_step(old(self)@, now, suffix@),
            nonce@ == CSRF_NONCE_PREFIX@ + suffix@,
            final(self).csrf_nonces() == old(self).csrf_nonces().insert(nonce@, now),
            final(self).clients() == old(self).clients(),
            final(self).auth_codes() == old(self).auth_codes(),
            final(self).access_tokens() == old(self).access_tokens(),
            final(self).refresh_tokens() == old(self).refresh_tokens(),
            final(self).config() == old(self).config(),
    {
        let nonce = prefixed(CSRF_NONCE_PREFIX, suffix);
        self.csrf_nonces.insert(nonce.clone(), now);
        nonce
    }

    /// Create a single-use CSRF nonce for the consent form.
    pub fn create_csrf_nonce(&mut self) -> (nonce: String)
        ensures
            exists|now: u128, a: Seq<char>| (final(self)@, nonce@) == #[trigger] create_nonce_step(old(self)@, now, a),
            CSRF_NONCE_PREFIX@.len() <= nonce@.len(),
            nonce@.subrange(0, CSRF_NONCE_PREFIX@.len() as int) == CSRF_NONCE_PREFIX@,
            final(self).csrf_nonces().dom() == old(self).csrf_nonces().dom().insert(nonce@),
            forall|k: Seq<char>| k != nonce@ && #[trigger] old(self).csrf_nonces().contains_key(k)
                ==> final(self).csrf_nonces()[k] == old(self).csrf_nonces()[k],
            final(self).clients() == old(self).clients(),
            final(self).auth_codes() == old(self).auth_codes(),
            final(self).access_tokens() == old(self).access_tokens(),
            final(self).refresh_tokens() == old(self).refresh_tokens(),
            final(self).config() == old(self).config(),
    {
        let now = self.now();
        let id = random_id();
        let nonce = self.create_csrf_nonce_with(now, id.as_str());
        assert(nonce@.subrange(0, CSRF_NONCE_PREFIX@.len() as int) =~= CSRF_NONCE_PREFIX@);
        assert(self.csrf_nonces().dom() =~= old(self).csrf_nonces().dom().insert(nonce@));
        nonce
    }

    /// Consumes the CSRF nonce `nonce` at time `now`: it is removed, and the
    /// answer is whether it was outstanding and no older than its lifetime.
    pub fn consume_csrf_nonce_with(&mut self, now: u128, nonce: &str) -> (ok: bool)
        ensures
            (final(self)@, ok) == consume_nonce_step(old(self)@, now, nonce@),
            ok == (old(self).csrf_nonces().contains_key(nonce@) && within(
                now,
                old(self).csrf_nonces()[nonce@],
                old(self).config().csrf_nonce_ttl_secs,
            )),
            final(self).csrf_nonces() == old(self).csrf_nonces().remove(nonce@),
            final(self).clients() == old(self).clients(),
            final(self).auth_codes() == old(self).auth_codes(),
            final(self).access_tokens() == old(self).access_tokens(),
            final(self).refresh_tokens() == old(self).refresh_tokens(),
            final(self).config() == old(self).config(),
    {
        match self.csrf_nonces.remove(nonce) {
            Some(created) => within_secs(now, created, self.config.csrf_nonce_ttl_secs),
            None => false,
        }
    }

    /// Consume and validate a CSRF nonce. Returns `true` if valid and not
    /// expired; the nonce is gone afterwards either way.
    pub fn consume_csrf_nonce(&mut self, nonce: &str) -> (ok: bool)
        ensures
            exists|now: u128| (final(self)@, ok) == #[trigger] consume_nonce_step(old(self)@, now, nonce@),
            ok ==> old(self).csrf_nonces().contains_key(nonce@),
            final(self).csrf_nonces() == old(self).csrf_nonces().remove(nonce@),
            final(self).clients() == old(self).clients(),
            final(self).auth_codes() == old(self).auth_codes(),
            final(self).access_tokens() == old(self).access_tokens(),
            final(self).refresh_tokens() == old(self).refresh_tokens(),
            final(self).config() == old(self).config(),
    {
        let now = self.now();
        self.consume_csrf_nonce_with(now, nonce)
    }

    /// Issues the authorization code `myapp_ac_{suffix}`, stamped with `now`.
    pub fn create_auth_code_with(
        &mut self,
        now: u128,
        suffix: &str,
        client_id: String,
        redirect_uri: String,
        scope: Vec<String>,
        code_challenge: String,
    ) -> (code: String)
        ensures
            (final(self)@, code@) == create_code_step(old(self)@, now, suffix@, client_id@, redirect_uri@, strings_view(scope@), code_challenge@),
            code@ == AUTH_CODE_PREFIX@ + suffix@,
            final(self).auth_codes() == old(self).auth_codes().insert(
                code@,
                AuthCodeView {
                    client_id: client_id@,
                    redirect_uri: redirect_uri@,
                    scope: strings_view(scope@),
                    code_challenge: code_challenge@,
                    created_at: now,
                },
            ),
            final(self).clients() == old(self).clients(),
            final(self).access_tokens() == old(self).access_tokens(),
            final(self).refresh_tokens() == old(self).refresh_tokens(),
            final(self).csrf_nonces() == old(self).csrf_nonces(),
            final(self).config() == old(self).config(),
    {
        let code = prefixed(AUTH_CODE_PREFIX, suffix);
        let auth_code = AuthCode { client_id, redirect_uri, scope, code_challenge, created_at: now };
        let ghost v = auth_code@;
        self.auth_codes.insert(code.clone(), auth_code);
        assert(self.auth_codes() =~= old(self).auth_codes().insert(code@, v));
        code
    }

    /// Issue a single-use authorization code bound to the given PKCE challenge.
    pub fn create_auth_code(
        &mut self,
        client_id: String,
        redirect_uri: String,
        scope: Vec<String>,
        code_challenge: String,
    ) -> (code: String)
        ensures
            exists|now: u128, a: Seq<char>| (final(self)@, code@) == #[trigger] create_code_step(old(self)@, now, a, client_id@, redirect_uri@, strings_view(scope@), code_challenge@),
            AUTH_CODE_PREFIX@.len() <= code@.len(),
            code@.subrange(0, AUTH_CODE_PREFIX@.len() as int) == AUTH_CODE_PREFIX@,
            final(self).auth_codes().contains_key(code@),
            final(self).auth_codes()[code@].client_id == client_id@,
            final(self).auth_codes()[code@].redirect_uri == redirect_uri@,
            final(self).auth_codes()[code@].scope == strings_view(scope@),
            final(self).auth_codes()[code@].code_challenge == code_challenge@,
            final(self).auth_codes() == old(self).auth_codes().insert(code@, final(self).auth_codes()[code@]),
            final(self).clients() == old(self).clients(),
            final(self).access_tokens() == old(self).access_tokens(),
            final(self).refresh_tokens() == old(self).refresh_tokens(),
            final(self).csrf_nonces() == old(self).csrf_nonces(),
            final(self).config() == old(self).config(),
    {
        let now = self.now();
        let id = random_id();
        let code = self.create_auth_code_with(now, id.as_str(), client_id, redirect_uri, scope, code_challenge);
        assert(code@.subrange(0, AUTH_CODE_PREFIX@.len() as int) =~= AUTH_CODE_PREFIX@);
        code
    }

    /// Consumes the authorization code `code` at time `now`: it is removed, and
    /// handed back when it was outstanding and no older than its lifetime.
    pub fn consume_auth_code_with(&mut self, now: u128, code: &str) -> (r: Option<AuthCode>)
        ensures
            (final(self)@, opt_code_view(r)) == consume_code_step(old(self)@, now, code@),
            match r {
                Some(c) => old(self).auth_codes().contains_key(code@) && c@ == old(self).auth_codes()[code@]
                    && within(now, c@.created_at, old(self).config().auth_code_ttl_secs),
                None => !old(self).auth_codes().contains_key(code@) || !within(
                    now,
                    old(self).auth_codes()[code@].created_at,
                    old(self).config().auth_code_ttl_secs,
                ),
            },
            final(self).auth_codes() == old(self).auth_codes().remove(code@),
            final(self).clients() == old(self).clients(),
            final(self).access_tokens() == old(self).access_tokens(),
            final(self).refresh_tokens() == old(self).refresh_tokens(),
            final(self).csrf_nonces() == old(self).csrf_nonces(),
            final(self).config() == old(self).config(),
    {
        let removed = self.auth_codes.remove(code);
        assert(self.auth_codes() =~= old(self).auth_codes().remove(code@));
        match removed {
            Some(auth_code) => {
                if within_secs(now, auth_code.created_at, self.config.auth_code_ttl_secs) {
                    Some(auth_code)
                } else {
                    None
                }
            },
            None => None,
        }
    }

    /// Consume a single-use authorization code. Returns `None` if the code is
    /// invalid, already used, or expired; the code is gone afterwards either way.
    pub fn consume_auth_code(&mut self, code: &str) -> (r: Option<AuthCode>)
        ensures
            exists|now: u128| (final(self)@, opt_code_view(r)) == #[trigger] consume_code_step(old(self)@, now, code@),
            r matches Some(c) ==> old(self).auth_codes().contains_key(code@) && c@ == old(
                self,
            ).auth_codes()[code@],
            !old(self).auth_codes().contains_key(code@) ==> r is None,
            final(self).auth_codes() == old(self).auth_codes().remove(code@),
            final(self).clients() == old(self).clients(),
            final(self).access_tokens() == old(self).access_tokens(),
            final(self).refresh_tokens() == old(self).refresh_tokens(),
            final(self).csrf_nonces() == old(self).csrf_nonces(),
            final(self).config() == old(self).config(),
    {
        let now = self.now();
        self.consume_auth_code_with(now, code)
    }

    /// Issues the access token `myapp_at_{token_suffix}` with the refresh token
    /// `myapp_rt_{refresh_suffix}`, stamped with `now` and living for the
    /// configured token lifetime.
    pub fn create_access_token_with(
        &mut self,
        now: u128,
        token_suffix: &str,
        refresh_suffix: &str,
        client_id: String,
        scope: Vec<String>,
    ) -> (t: AccessToken)
        ensures
            (final(self)@, t@) == create_token_step(old(self)@, now, token_suffix@, refresh_suffix@, client_id@, strings_view(scope@)),
            t@ == (AccessTokenView {
                token: ACCESS_TOKEN_PREFIX@ + token_suffix@,
                client_id: client_id@,
                scope: strings_view(scope@),
                created_at: now,
                expires_in: old(self).config().token_expiry_secs,
                refresh_token: REFRESH_TOKEN_PREFIX@ + refresh_suffix@,
            }),
            final(self).access_tokens() == old(self).access_tokens().insert(t@.token, t@),
            final(self).refresh_tokens() == old(self).refresh_tokens().insert(t@.refresh_token, t@.token),
            final(self).clients() == old(self).clients(),
            final(self).auth_codes() == old(self).auth_codes(),
            final(self).csrf_nonces() == old(self).csrf_nonces(),
            final(self).config() == old(self).config(),
    {
        let token_value = prefixed(ACCESS_TOKEN_PREFIX, token_suffix);
        let refresh_value = prefixed(REFRESH_TOKEN_PREFIX, refresh_suffix);
        let token = AccessToken {
            token: token_value.clone(),
            client_id,
            scope,
            created_at: now,
            expires_in: self.config.token_expiry_secs,
            refresh_token: refresh_value.clone(),
        };
        let copy = token.clone();
        self.access_tokens.insert(token_value.clone(), token);
        self.refresh_tokens.insert(refresh_value, token_value);
        assert(self.access_tokens() =~= old(self).access_tokens().insert(copy@.token, copy@));
        assert(self.refresh_tokens() =~= old(self).refresh_tokens().insert(copy@.refresh_token, copy@.token));
        copy
    }

    /// Issue a new access token and refresh token pair for the given client and
    /// scopes.
    pub fn create_access_token(&mut self, client_id: String, scope: Vec<String>) -> (t: AccessToken)
        ensures
            exists|now: u128, a: Seq<char>, b: Seq<char>| (final(self)@, t@) == #[trigger] create_token_step(old(self)@, now, a, b, client_id@, strings_view(scope@)),
            ACCESS_TOKEN_PREFIX@.len() <= t@.token.len(),
            t@.token.subrange(0, ACCESS_TOKEN_PREFIX@.len() as int) == ACCESS_TOKEN_PREFIX@,
            REFRESH_TOKEN_PREFIX@.len() <= t@.refresh_token.len(),
            t@.refresh_token.subrange(0, REFRESH_TOKEN_PREFIX@.len() as int) == REFRESH_TOKEN_PREFIX@,
            t@.client_id == client_id@,
            t@.scope == strings_view(scope@),
            t@.expires_in == old(self).config().token_expiry_secs,
            final(self).access_tokens() == old(self).access_tokens().insert(t@.token, t@),
            final(self).refresh_tokens() == old(self).refresh_tokens().insert(t@.refresh_token, t@.token),
            final(self).clients() == old(self).clients(),
            final(self).auth_codes() == old(self).auth_codes(),
            final(self).csrf_nonces() == old(self).csrf_nonces(),
            final(self).config() == old(self).config(),
    {
        let now = self.now();
        let token_id = random_id();
        let refresh_id = random_id();
        let t = self.create_access_token_with(now, token_id.as_str(), refresh_id.as_str(), client_id, scope);
        assert(t@.token.subrange(0, ACCESS_TOKEN_PREFIX@.len() as int) =~= ACCESS_TOKEN_PREFIX@);
        assert(t@.refresh_token.subrange(0, REFRESH_TOKEN_PREFIX@.len() as int) =~= REFRESH_TOKEN_PREFIX@);
        t
    }

    /// The access token `token` as of time `now`: known and no older than its
    /// own lifetime.
    pub fn validate_access_token_with(&self, now: u128, token: &str) -> (r: Option<AccessToken>)
        ensures
            opt_token_view(r) == validate_token(self@, now, token@),
            match r {
                Some(t) => self.access_tokens().contains_key(token@) && t@ == self.access_tokens()[token@]
                    && within(now, t@.created_at, t@.expires_in),
                None => !self.access_tokens().contains_key(token@) || !within(
                    now,
                    self.access_tokens()[token@].created_at,
                    self.access_tokens()[token@].expires_in,
                ),
            },
    {
        match self.access_tokens.get(token) {
            Some(access_token) => {
                if within_secs(now, access_token.created_at, access_token.expires_in) {
                    Some(access_token.clone())
                } else {
                    None
                }
            },
            None => None,
        }
    }

    /// Validate an access token. Returns `None` if the token is unknown or
    /// expired.
    pub fn validate_access_token(&self, token: &str) -> (r: Option<AccessToken>)
        ensures
            exists|now: u128| opt_token_view(r) == #[trigger] validate_token(self@, now, token@),
            r matches Some(t) ==> self.access_tokens().contains_key(token@) && t@ == self.access_tokens()[token@],
            !self.access_tokens().contains_key(token@) ==> r is None,
    {
        let now = self.now();
        self.validate_access_token_with(now, token)
    }

    /// Rotates the refresh token `refresh_token` at time `now`: the refresh
    /// token and the access token it names are revoked, and the pair
    /// `myapp_at_{token_suffix}` / `myapp_rt_{refresh_suffix}` is issued for the
    /// same client, scopes and lifetime.
    pub fn refresh_access_token_with(
        &mut self,
        now: u128,
        token_suffix: &str,
        refresh_suffix: &str,
        refresh_token: &str,
    ) -> (r: Option<AccessToken>)
        ensures
            (final(self)@, opt_token_view(r)) == refresh_step(old(self)@, now, token_suffix@, refresh_suffix@, refresh_token@),
            final(self).clients() == old(self).clients(),
            final(self).auth_codes() == old(self).auth_codes(),
            final(self).csrf_nonces() == old(self).csrf_nonces(),
            final(self).config() == old(self).config(),
            !old(self).refresh_tokens().contains_key(refresh_token@) ==> {
                &&& r is None
                &&& final(self).access_tokens() == old(self).access_tokens()
                &&& final(self).refresh_tokens() == old(self).refresh_tokens()
            },
            old(self).refresh_tokens().contains_key(refresh_token@) && !old(self).access_tokens().contains_key(
                old(self).refresh_tokens()[refresh_token@],
            ) ==> {
                &&& r is None
                &&& final(self).access_tokens() == old(self).access_tokens()
                &&& final(self).refresh_tokens() == old(self).refresh_tokens().remove(refresh_token@)
            },
            old(self).refresh_tokens().contains_key(refresh_token@) && old(self).access_tokens().contains_key(
                old(self).refresh_tokens()[refresh_token@],
            ) ==> {
                let old_key = old(self).refresh_tokens()[refresh_token@];
                let prior = old(self).access_tokens()[old_key];
                let fresh = AccessTokenView {
                    token: ACCESS_TOKEN_PREFIX@ + token_suffix@,
                    client_id: prior.client_id,
                    scope: prior.scope,
                    created_at: now,
                    expires_in: prior.expires_in,
                    refresh_token: REFRESH_TOKEN_PREFIX@ + refresh_suffix@,
                };
                &&& r matches Some(t) && t@ == fresh
                &&& final(self).access_tokens() == old(self).access_tokens().remove(old_key).insert(fresh.token, fresh)
                &&& final(self).refresh_tokens() == old(self).refresh_tokens().remove(refresh_token@).insert(
                    fresh.refresh_token,
                    fresh.token,
                )
            },
    {
        let old_token_key = match self.refresh_tokens.remove(refresh_token) {
            Some(k) => k,
            None => {
                assert(self.refresh_tokens() =~= old(self).refresh_tokens());
                return None;
            },
        };
        assert(self.refresh_tokens() =~= old(self).refresh_tokens().remove(refresh_token@));
        let ghost mid_refresh = self.refresh_tokens();
        let old_access_token = match self.access_tokens.remove(old_token_key.as_str()) {
            Some(t) => t,
            None => {
                assert(self.access_tokens() =~= old(self).access_tokens());
                return None;
            },
        };
        assert(self.access_tokens() =~= old(self).access_tokens().remove(old_token_key@));
        let ghost mid_access = self.access_tokens();
        let new_token_value = prefixed(ACCESS_TOKEN_PREFIX, token_suffix);
        let new_refresh_value = prefixed(REFRESH_TOKEN_PREFIX, refresh_suffix);
        let new_token = AccessToken {
            token: new_token_value.clone(),
            client_id: old_access_token.client_id,
            scope: old_access_token.scope,
            created_at: now,
            expires_in: old_access_token.expires_in,
            refresh_token: new_refresh_value.clone(),
        };
        let copy = new_token.clone();
        self.access_tokens.insert(new_token_value.clone(), new_token);
        self.refresh_tokens.insert(new_refresh_value, new_token_value);
        assert(self.access_tokens() =~= mid_access.insert(copy@.token, copy@));
        assert(self.refresh_tokens() =~= mid_refresh.insert(copy@.refresh_token, copy@.token));
        Some(copy)
    }

    /// Rotate a refresh token: revoke the old access/refresh pair and issue new
    /// ones.
    pub fn refresh_access_token(&mut self, refresh_token: &str) -> (r: Option<AccessToken>)
        ensures
            exists|now: u128, a: Seq<char>, b: Seq<char>| (final(self)@, opt_token_view(r)) == #[trigger] refresh_step(old(self)@, now, a, b, refresh_token@),
            final(self).clients() == old(self).clients(),
            final(self).auth_codes() == old(self).auth_codes(),
            final(self).csrf_nonces() == old(self).csrf_nonces(),
            final(self).config() == old(self).config(),
            !old(self).refresh_tokens().contains_key(refresh_token@) ==> r is None
                && final(self).access_tokens() == old(self).access_tokens()
                && final(self).refresh_tokens() == old(self).refresh_tokens(),
            r matches Some(t) ==> {
                let old_key = old(self).refresh_tokens()[refresh_token@];
                let prior = old(self).access_tokens()[old_key];
                &&& old(self).refresh_tokens().contains_key(refresh_token@)
                &&& old(self).access_tokens().contains_key(old_key)
                &&& t@.client_id == prior.client_id
                &&& t@.scope == prior.scope
                &&& t@.expires_in == prior.expires_in
                &&& final(self).access_tokens() == old(self).access_tokens().remove(old_key).insert(t@.token, t@)
                &&& final(self).refresh_tokens() == old(self).refresh_tokens().remove(refresh_token@).insert(
                    t@.refresh_token,
                    t@.token,
                )
            },
    {
        let now = self.now();
        let token_id = random_id();
        let refresh_id = random_id();
        self.refresh_access_token_with(now, token_id.as_str(), refresh_id.as_str(), refresh_token)
    }

    /// Removes, as of time `now`, every authorization code and CSRF nonce older
    /// than its lifetime, and every expired access token together with its
    /// refresh token.
    pub fn sweep_expired_with(&mut self, now: u128)
        ensures
            final(self)@ == sweep_step(old(self)@, now),
            final(self).auth_codes() == keep(
                old(self).auth_codes(),
                |c: AuthCodeView| within(now, c.created_at, old(self).config().auth_code_ttl_secs),
            ),
            final(self).csrf_nonces() == keep(
                old(self).csrf_nonces(),
                |t: u128| within(now, t, old(self).config().csrf_nonce_ttl_secs),
            ),
            final(self).access_tokens() == keep(
                old(self).access_tokens(),
                |t: AccessTokenView| within(now, t.created_at, t.expires_in),
            ),
            final(self).refresh_tokens() == Map::new(
                |r: Seq<char>|
                    old(self).refresh_tokens().contains_key(r) && !(exists|k: Seq<char>|
                        #[trigger] old(self).access_tokens().contains_key(k) && !within(
                            now,
                            old(self).access_tokens()[k].created_at,
                            old(self).access_tokens()[k].expires_in,
                        ) && old(self).access_tokens()[k].refresh_token == r),
                |r: Seq<char>| old(self).refresh_tokens()[r],
            ),
            final(self).clients() == old(self).clients(),
            final(self).config() == old(self).config(),
    {
        let auth_code_ttl = self.config.auth_code_ttl_secs;
        let csrf_nonce_ttl = self.config.csrf_nonce_ttl_secs;

        let ghost codes0 = self.auth_codes();
        let code_keys = self.auth_codes.keys();
        let n = code_keys.len();
        let mut i: usize = 0;
        while i < n
            invariant
                i <= n,
                n == code_keys@.len(),
                self.config() == old(self).config(),
                auth_code_ttl == old(self).config().auth_code_ttl_secs,
                self.clients() == old(self).clients(),
                self.csrf_nonces() == old(self).csrf_nonces(),
                self.access_tokens() == old(self).access_tokens(),
                self.refresh_tokens() == old(self).refresh_tokens(),
                codes0 == old(self).auth_codes(),
                forall|j: int| 0 <= j < n ==> codes0.contains_key((#[trigger] code_keys@[j])@),
                forall|k: Seq<char>| #[trigger] codes0.contains_key(k) ==> exists|j: int|
                    0 <= j < n && (#[trigger] code_keys@[j])@ == k,
                forall|k: Seq<char>|
                    #[trigger] self.auth_codes().contains_key(k) == (codes0.contains_key(k) && (among(
                        code_keys@,
                        i as int,
                        k,
                    ) ==> within(now, codes0[k].created_at, auth_code_ttl))),
                forall|k: Seq<char>| #[trigger] self.auth_codes().contains_key(k) ==> self.auth_codes()[k] == codes0[k],
            decreases n - i,
        {
            let key = &code_keys[i];
            let expired = match self.auth_codes.get(key.as_str()) {
                Some(c) => !within_secs(now, c.created_at, auth_code_ttl),
                None => false,
            };
            let ghost before = self.auth_codes();
            assert(expired == (before.contains_key(key@) && !within(now, before[key@].created_at, auth_code_ttl)));
            if expired {
                self.auth_codes.remove(key.as_str());
                assert(self.auth_codes() =~= before.remove(key@));
            } else {
                assert(self.auth_codes() =~= before);
            }
            proof {
                assert forall|k: Seq<char>| #[trigger] self.auth_codes().contains_key(k) == (codes0.contains_key(k)
                    && (among(code_keys@, i + 1, k) ==> within(now, codes0[k].created_at, auth_code_ttl))) by {
                    lemma_among_step(code_keys@, i as int, k);
                }
            }
            i = i + 1;
        }
        proof {
            assert(self.auth_codes() =~= keep(
                codes0,
                |c: AuthCodeView| within(now, c.created_at, auth_code_ttl),
            )) by {
                assert forall|k: Seq<char>| codes0.contains_key(k) implies among(code_keys@, n as int, k) by {
                    let j = choose|j: int| 0 <= j < n && (#[trigger] code_keys@[j])@ == k;
                }
            }
        }

        let ghost nonces0 = self.csrf_nonces();
        let nonce_keys = self.csrf_nonces.keys();
        let n = nonce_keys.len();
        let mut i: usize = 0;
        while i < n
            invariant
                i <= n,
                n == nonce_keys@.len(),
                self.config() == old(self).config(),
                csrf_nonce_ttl == old(self).config().csrf_nonce_ttl_secs,
                self.clients() == old(self).clients(),
                self.access_tokens() == old(self).access_tokens(),
                self.refresh_tokens() == old(self).refresh_tokens(),
                self.auth_codes() == keep(
                    old(self).auth_codes(),
                    |c: AuthCodeView| within(now, c.created_at, old(self).config().auth_code_ttl_secs),
                ),
                nonces0 == old(self).csrf_nonces(),
                forall|j: int| 0 <= j < n ==> nonces0.contains_key((#[trigger] nonce_keys@[j])@),
                forall|k: Seq<char>| #[trigger] nonces0.contains_key(k) ==> exists|j: int|
                    0 <= j < n && (#[trigger] nonce_keys@[j])@ == k,
                forall|k: Seq<char>|
                    #[trigger] self.csrf_nonces().contains_key(k) == (nonces0.contains_key(k) && (among(
                        nonce_keys@,
                        i as int,
                        k,
                    ) ==> within(now, nonces0[k], csrf_nonce_ttl))),
                forall|k: Seq<char>| #[trigger] self.csrf_nonces().contains_key(k) ==> self.csrf_nonces()[k] == nonces0[k],
            decreases n - i,
        {
            let key = &nonce_keys[i];
            let expired = match self.csrf_nonces.get(key.as_str()) {
                Some(t) => !within_secs(now, *t, csrf_nonce_ttl),
                None => false,
            };
            let ghost before = self.csrf_nonces();
            if expired {
                self.csrf_nonces.remove(key.as_str());
                assert(self.csrf_nonces() =~= before.remove(key@));
            } else {
                assert(self.csrf_nonces() =~= before);
            }
            proof {
                assert forall|k: Seq<char>| #[trigger] self.csrf_nonces().contains_key(k) == (nonces0.contains_key(k)
                    && (among(nonce_keys@, i + 1, k) ==> within(now, nonces0[k], csrf_nonce_ttl))) by {
                    lemma_among_step(nonce_keys@, i as int, k);
                }
            }
            i = i + 1;
        }
        proof {
            assert(self.csrf_nonces() =~= keep(nonces0, |t: u128| within(now, t, csrf_nonce_ttl))) by {
                assert forall|k: Seq<char>| nonces0.contains_key(k) implies among(nonce_keys@, n as int, k) by {
                    let j = choose|j: int| 0 <= j < n && (#[trigger] nonce_keys@[j])@ == k;
                }
            }
        }

        let ghost access0 = self.access_tokens();
        let ghost refresh0 = self.refresh_tokens();
        let token_keys = self.access_tokens.keys();
        let n = token_keys.len();
        let mut i: usize = 0;
        while i < n
            invariant
                i <= n,
                n == token_keys@.len(),
                self.config() == old(self).config(),
                self.clients() == old(self).clients(),
                self.auth_codes() == keep(
                    old(self).auth_codes(),
                    |c: AuthCodeView| within(now, c.created_at, old(self).config().auth_code_ttl_secs),
                ),
                self.csrf_nonces() == keep(
                    old(self).csrf_nonces(),
                    |t: u128| within(now, t, old(self).config().csrf_nonce_ttl_secs),
                ),
                access0 == old(self).access_tokens(),
                refresh0 == old(self).refresh_tokens(),
                forall|j: int| 0 <= j < n ==> access0.contains_key((#[trigger] token_keys@[j])@),
                forall|k: Seq<char>| #[trigger] access0.contains_key(k) ==> exists|j: int|
                    0 <= j < n && (#[trigger] token_keys@[j])@ == k,
                forall|k: Seq<char>|
                    #[trigger] self.access_tokens().contains_key(k) == (access0.contains_key(k) && (among(
                        token_keys@,
                        i as int,
                        k,
                    ) ==> within(now, access0[k].created_at, access0[k].expires_in))),
                forall|k: Seq<char>| #[trigger] self.access_tokens().contains_key(k) ==> self.access_tokens()[k] == access0[k],
                forall|r: Seq<char>|
                    #[trigger] self.refresh_tokens().contains_key(r) == (refresh0.contains_key(r) && !revoked_by(
                        access0,
                        now,
                        token_keys@,
                        i as int,
                        r,
                    )),
                forall|r: Seq<char>| #[trigger] self.refresh_tokens().contains_key(r) ==> self.refresh_tokens()[r] == refresh0[r],
            decreases n - i,
        {
            let key = &token_keys[i];
            let ghost k0 = key@;
            let expired = match self.access_tokens.get(key.as_str()) {
                Some(t) => !within_secs(now, t.created_at, t.expires_in),
                None => false,
            };
            let ghost before_access = self.access_tokens();
            let ghost before_refresh = self.refresh_tokens();
            assert(expired == (before_access.contains_key(k0) && !within(
                now,
                before_access[k0].created_at,
                before_access[k0].expires_in,
            )));
            if expired {
                let removed = self.access_tokens.remove(key.as_str());
                assert(self.access_tokens() =~= before_access.remove(k0));
                if let Some(access_token) = removed {
                    assert(access_token@ == before_access[k0]);
                    self.refresh_tokens.remove(access_token.refresh_token.as_str());
                    assert(self.refresh_tokens() =~= before_refresh.remove(before_access[k0].refresh_token));
                }
            } else {
                assert(self.access_tokens() =~= before_access);
                assert(self.refresh_tokens() =~= before_refresh);
            }
            proof {
                assert forall|k: Seq<char>| #[trigger] self.access_tokens().contains_key(k) == (access0.contains_key(k)
                    && (among(token_keys@, i + 1, k) ==> within(now, access0[k].created_at, access0[k].expires_in))) by {
                    lemma_among_step(token_keys@, i as int, k);
                }
                assert forall|r: Seq<char>| #[trigger] self.refresh_tokens().contains_key(r) == (refresh0.contains_key(r)
                    && !revoked_by(access0, now, token_keys@, i + 1, r)) by {
                    lemma_revoked_step(access0, now, token_keys@, i as int, r);
                    lemma_among_step(token_keys@, i as int, k0);
                    assert(before_refresh.contains_key(r) == (refresh0.contains_key(r) && !revoked_by(
                        access0,
                        now,
                        token_keys@,
                        i as int,
                        r,
                    )));
                    if expired {
                        assert(before_access[k0] == access0[k0]);
                    } else if access0.contains_key(k0) && !within(now, access0[k0].created_at, access0[k0].expires_in)
                        && access0[k0].refresh_token == r {
                        if before_access.contains_key(k0) {
                            assert(before_access[k0] == access0[k0]);
                        }
                        assert(among(token_keys@, i as int, k0));
                        assert(revoked_by(access0, now, token_keys@, i as int, r));
                    }
                }
            }
            i = i + 1;
        }
        proof {
            assert(self.access_tokens() =~= keep(
                access0,
                |t: AccessTokenView| within(now, t.created_at, t.expires_in),
            )) by {
                assert forall|k: Seq<char>| access0.contains_key(k) implies among(token_keys@, n as int, k) by {
                    let j = choose|j: int| 0 <= j < n && (#[trigger] token_keys@[j])@ == k;
                }
            }
            let target = Map::new(
                |r: Seq<char>|
                    refresh0.contains_key(r) && !(exists|k: Seq<char>|
                        #[trigger] access0.contains_key(k) && !within(
                            now,
                            access0[k].created_at,
                            access0[k].expires_in,
                        ) && access0[k].refresh_token == r),
                |r: Seq<char>| refresh0[r],
            );
            assert(self.refresh_tokens() =~= target) by {
                assert forall|r: Seq<char>| #[trigger] self.refresh_tokens().contains_key(r) == target.contains_key(r) by {
                    if exists|k: Seq<char>| #[trigger] access0.contains_key(k) && !within(
                        now,
                        access0[k].created_at,
                        access0[k].expires_in,
                    ) && access0[k].refresh_token == r {
                        let k = choose|k: Seq<char>| #[trigger] access0.contains_key(k) && !within(
                            now,
                            access0[k].created_at,
                            access0[k].expires_in,
                        ) && access0[k].refresh_token == r;
                        let j = choose|j: int| 0 <= j < n && (#[trigger] token_keys@[j])@ == k;
                        assert(among(token_keys@, n as int, k));
                        assert(revoked_by(access0, now, token_keys@, n as int, r));
                    }
                    if revoked_by(access0, now, token_keys@, n as int, r) {
                        let k = choose|k: Seq<char>|
                            among(token_keys@, n as int, k) && #[trigger] access0.contains_key(k) && !within(
                                now,
                                access0[k].created_at,
                                access0[k].expires_in,
                            ) && access0[k].refresh_token == r;
                        assert(!target.contains_key(r));
                    }
                }
            }
        }
    }

    /// Remove all expired auth codes, CSRF nonces, and access/refresh token
    /// pairs, as of the current time.
    pub fn sweep_expired(&mut self)
        ensures
            exists|now: u128| final(self)@ == #[trigger] sweep_step(old(self)@, now),
            final(self).clients() == old(self).clients(),
            final(self).config() == old(self).config(),
            final(self).auth_codes().dom().subset_of(old(self).auth_codes().dom()),
            final(self).csrf_nonces().dom().subset_of(old(self).csrf_nonces().dom()),
            final(self).access_tokens().dom().subset_of(old(self).access_tokens().dom()),
            final(self).refresh_tokens().dom().subset_of(old(self).refresh_tokens().dom()),
    {
        let now = self.now();
        self.sweep_expired_with(now);
    }
}

/// An authorization code is single-use: once consumed, whatever the first
/// answer was, consuming it again yields nothing.
pub proof fn lemma_auth_code_single_use(m: StoreModel, first: u128, second: u128, code: Seq<char>)
    ensures
        consume_code_step(consume_code_step(m, first, code).0, second, code).1 is None,
{
}

/// An authorization code issued at `now` is handed back, with what it was
/// issued for, when consumed no later than its lifetime allows.
pub proof fn lemma_auth_code_round_trip(
    m: StoreModel,
    now: u128,
    later: u128,
    suffix: Seq<char>,
    client_id: Seq<char>,
    redirect_uri: Seq<char>,
    scope: Seq<Seq<char>>,
    code_challenge: Seq<char>,
)
    requires
        within(later, now, m.config.auth_code_ttl_secs),
    ensures
        ({
            let (issued, code) = create_code_step(m, now, suffix, client_id, redirect_uri, scope, code_challenge);
            consume_code_step(issued, later, code).1 == Some(
                AuthCodeView { client_id, redirect_uri, scope, code_challenge, created_at: now },
            )
        }),
{
}

/// A CSRF nonce is single-use.
pub proof fn lemma_nonce_single_use(m: StoreModel, first: u128, second: u128, nonce: Seq<char>)
    ensures
        !consume_nonce_step(consume_nonce_step(m, first, nonce).0, second, nonce).1,
{
}

/// A CSRF nonce issued at `now` is accepted once within its lifetime.
pub proof fn lemma_nonce_round_trip(m: StoreModel, now: u128, later: u128, suffix: Seq<char>)
    requires
        within(later, now, m.config.csrf_nonce_ttl_secs),
    ensures
        ({
            let (issued, nonce) = create_nonce_step(m, now, suffix);
            consume_nonce_step(issued, later, nonce).1
        }),
{
}

/// A freshly issued access token validates, as itself, for as long as its
/// lifetime lasts.
pub proof fn lemma_token_valid_after_issue(
    m: StoreModel,
    now: u128,
    later: u128,
    token_suffix: Seq<char>,
    refresh_suffix: Seq<char>,
    client_id: Seq<char>,
    scope: Seq<Seq<char>>,
)
    requires
        within(later, now, m.config.token_expiry_secs),
    ensures
        ({
            let (issued, t) = create_token_step(m, now, token_suffix, refresh_suffix, client_id, scope);
            validate_token(issued, later, t.token) == Some(t)
        }),
{
}

/// No access token is accepted once its lifetime has passed.
pub proof fn lemma_expired_token_rejected(m: StoreModel, now: u128, token: Seq<char>)
    ensures
        validate_token(m, now, token) matches Some(t) ==> within(now, t.created_at, t.expires_in)
            && m.access_tokens.contains_key(token),
{
}

/// Rotating a refresh token revokes it and the access token it renewed, and
/// issues a new pair that validates for its lifetime (given identifiers that
/// differ from the revoked ones).
pub proof fn lemma_refresh_rotates(
    m: StoreModel,
    now: u128,
    later: u128,
    token_suffix: Seq<char>,
    refresh_suffix: Seq<char>,
    refresh_token: Seq<char>,
    a: Seq<char>,
    b: Seq<char>,
)
    requires
        m.refresh_tokens.contains_key(refresh_token),
        m.access_tokens.contains_key(m.refresh_tokens[refresh_token]),
        ACCESS_TOKEN_PREFIX@ + token_suffix != m.refresh_tokens[refresh_token],
        REFRESH_TOKEN_PREFIX@ + refresh_suffix != refresh_token,
    ensures
        ({
            let old_token = m.refresh_tokens[refresh_token];
            let (rotated, fresh) = refresh_step(m, now, token_suffix, refresh_suffix, refresh_token);
            &&& fresh matches Some(t) && {
                &&& t.token != old_token
                &&& t.refresh_token != refresh_token
                &&& t.client_id == m.access_tokens[old_token].client_id
                &&& t.scope == m.access_tokens[old_token].scope
                &&& within(later, now, t.expires_in) ==> validate_token(rotated, later, t.token) == Some(t)
            }
            &&& validate_token(rotated, later, old_token) is None
            &&& refresh_step(rotated, later, a, b, refresh_token).1 is None
        }),
{
}

/// Sweeping at `now` changes no answer given at `now`: the same access tokens
/// validate, and the same codes and nonces would be accepted.
pub proof fn lemma_sweep_preserves_answers(m: StoreModel, now: u128, key: Seq<char>)
    ensures
        validate_token(sweep_step(m, now), now, key) == validate_token(m, now, key),
        consume_code_step(sweep_step(m, now), now, key).1 == consume_code_step(m, now, key).1,
        consume_nonce_step(sweep_step(m, now), now, key).1 == consume_nonce_step(m, now, key).1,
{
}

/// After a sweep at `now`, every access token still held is valid at `now`,
/// and the refresh token of every token that had expired no longer renews.
pub proof fn lemma_sweep_removes_expired(m: StoreModel, now: u128, later: u128, token: Seq<char>, a: Seq<char>, b: Seq<char>)
    ensures
        sweep_step(m, now).access_tokens.contains_key(token) ==> validate_token(sweep_step(m, now), now, token) is Some,
        m.access_tokens.contains_key(token) && !within(
            now,
            m.access_tokens[token].created_at,
            m.access_tokens[token].expires_in,
        ) ==> refresh_step(sweep_step(m, now), later, a, b, m.access_tokens[token].refresh_token).1 is None,
{
    if m.access_tokens.contains_key(token) && !within(
        now,
        m.access_tokens[token].created_at,
        m.access_tokens[token].expires_in,
    ) {
        let r = m.access_tokens[token].refresh_token;
        assert(m.access_tokens.contains_key(token) && !within(
            now,
            m.access_tokens[token].created_at,
            m.access_tokens[token].expires_in,
        ) && m.access_tokens[token].refresh_token == r);
        assert(!sweep_step(m, now).refresh_tokens.contains_key(r));
    }
}

/// A registered client's redirect URIs are exactly the ones it may use.
pub proof fn lemma_registered_redirects(
    m: StoreModel,
    id_suffix: Seq<char>,
    secret_suffix: Seq<char>,
    client_name: Option<Seq<char>>,
    redirect_uris: Seq<Seq<char>>,
    uri: Seq<char>,
)
    ensures
        ({
            let (registered, c) = register_step(m, id_suffix, secret_suffix, client_name, redirect_uris);
            redirect_allowed(registered, c.client_id, uri) == redirect_uris.contains(uri)
        }),
{
}

/// Lifetimes are counted in seconds on a nanosecond clock: a moment `now` is
/// within `secs` seconds of `then` exactly when it is not later than `then`
/// by more than `secs * 10^9` nanoseconds.
pub proof fn lemma_lifetimes_in_seconds(now: u128, then: u128, secs: u64)
    ensures
        within(now, then, secs) <==> (now <= then || now - then <= secs * 1_000_000_000),
        then <= now && now - then <= secs * 1_000_000_000 ==> within(now, then, secs),
        then <= now && now - then > secs * 1_000_000_000 ==> !within(now, then, secs),
{
}

/// An access token issued at `now` validates at a later moment exactly while
/// no more than the store's token lifetime, in seconds, has passed, counted
/// as `token_expiry_secs * 10^9` nanoseconds.
pub proof fn lemma_token_lifetime(
    m: StoreModel,
    now: u128,
    later: u128,
    token_suffix: Seq<char>,
    refresh_suffix: Seq<char>,
    client_id: Seq<char>,
    scope: Seq<Seq<char>>,
)
    requires
        now <= later,
    ensures
        ({
            let (issued, t) = create_token_step(m, now, token_suffix, refresh_suffix, client_id, scope);
            &&& t.expires_in == m.config.token_expiry_secs
            &&& later - now <= m.config.token_expiry_secs * 1_000_000_000 ==> validate_token(issued, later, t.token)
                == Some(t)
            &&& later - now > m.config.token_expiry_secs * 1_000_000_000 ==> validate_token(issued, later, t.token)
                is None
        }),
{
}

/// An authorization code issued at `now` is accepted at a later moment exactly
/// while no more than `auth_code_ttl_secs * 10^9` nanoseconds have passed.
pub proof fn lemma_auth_code_lifetime(
    m: StoreModel,
    now: u128,
    later: u128,
    suffix: Seq<char>,
    client_id: Seq<char>,
    redirect_uri: Seq<char>,
    scope: Seq<Seq<char>>,
    code_challenge: Seq<char>,
)
    requires
        now <= later,
    ensures
        ({
            let (issued, code) = create_code_step(m, now, suffix, client_id, redirect_uri, scope, code_challenge);
            consume_code_step(issued, later, code).1 is Some <==> later - now <= m.config.auth_code_ttl_secs
                * 1_000_000_000
        }),
{
}

/// A CSRF nonce issued at `now` is accepted at a later moment exactly while no
/// more than `csrf_nonce_ttl_secs * 10^9` nanoseconds have passed.
pub proof fn lemma_nonce_lifetime(m: StoreModel, now: u128, later: u128, suffix: Seq<char>)
    requires
        now <= later,
    ensures
        ({
            let (issued, nonce) = create_nonce_step(m, now, suffix);
            consume_nonce_step(issued, later, nonce).1 <==> later - now <= m.config.csrf_nonce_ttl_secs
                * 1_000_000_000
        }),
{
}

} // verus!
