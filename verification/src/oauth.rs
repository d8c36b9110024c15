//! The OAuth 2.1 + PKCE authorization server's endpoints (RFC 6749, RFC 7636,
//! RFC 8414, RFC 7591): what each request is answered and what it does to the
//! store, and the bearer-token checks in front of the MCP endpoint.
//!
//! Each endpoint has a companion ending in `_with` that takes the clock
//! reading and the random identifiers as arguments and whose result is stated
//! exactly by a spec function of the store model.

use vstd::prelude::*;
use vstd::string::*;
use crate::encoding::{percent_encode, secrets_match, url_encode};
use crate::pkce::{s256_challenge, verify_s256};
use crate::store::{
    within, AccessTokenView, ACCESS_TOKEN_PREFIX, AUTH_CODE_PREFIX, CLIENT_ID_PREFIX, CSRF_NONCE_PREFIX,
    consume_code_step, consume_nonce_step, create_code_step, create_nonce_step, create_token_step,
    opt_view, redirect_allowed, refresh_step, register_step, strings_view, validate_token, OAuthStore,
    StoreModel, random_id,
};
use crate::text::{
    join, join_strings, push_str, replace_all, replace_str, split_whitespace, starts_with, str_eq, substring, words,
};

verus! {

/// Form posted by the consent page.
pub struct ApprovalForm {
    pub client_id: String,
    pub redirect_uri: String,
    pub scope: String,
    pub state: Option<String>,
    pub code_challenge: String,
    /// Validated on `GET /authorize`; carried through the form for completeness.
    pub code_challenge_method: String,
    pub approved: String,
    pub pin: Option<String>,
    pub csrf_nonce: String,
}

/// RFC 8414 authorization server metadata.
pub struct AuthorizationServerMetadata {
    pub issuer: String,
    pub authorization_endpoint: String,
    pub token_endpoint: String,
    pub registration_endpoint: String,
    pub scopes_supported: Vec<String>,
    pub response_types_supported: Vec<String>,
    pub grant_types_supported: Vec<String>,
    pub code_challenge_methods_supported: Vec<String>,
    pub token_endpoint_auth_methods_supported: Vec<String>,
}

/// Query of `GET /oauth/authorize`.
pub struct AuthorizeQuery {
    pub response_type: String,
    pub client_id: String,
    pub redirect_uri: String,
    pub scope: Option<String>,
    pub state: Option<String>,
    pub code_challenge: Option<String>,
    pub code_challenge_method: Option<String>,
}

/// RFC 9728 protected resource metadata.
pub struct ProtectedResourceMetadata {
    pub resource: String,
    pub authorization_servers: Vec<String>,
    pub scopes_supported: Vec<String>,
    pub bearer_methods_supported: Vec<String>,
}

/// Body of `POST /oauth/register`.
pub struct RegistrationRequest {
    pub client_name: Option<String>,
    pub redirect_uris: Vec<String>,
}

/// Form of `POST /oauth/token`; absent fields read as empty.
pub struct TokenRequest {
    pub grant_type: String,
    pub code: String,
    pub client_id: String,
    pub redirect_uri: String,
    pub code_verifier: Option<String>,
    pub refresh_token: String,
}

/// What an endpoint answers.
pub enum OAuthResponse {
    /// A redirect (303 See Other) to `location`.
    Redirect(String),
    /// A JSON error `{"error": ..., "error_description": ...}` with `status`.
    Error { status: u16, error: String, description: String },
    /// The consent page, carrying a CSRF nonce and whether a PIN is asked for,
    /// sent with `X-Frame-Options: DENY` and `frame-ancestors 'none'`.
    ConsentPage { csrf_nonce: String, pin_required: bool },
    /// 200 with a bearer token: `{"access_token", "token_type": "Bearer",
    /// "expires_in", "refresh_token", "scope"}`.
    Token { access_token: String, refresh_token: String, expires_in: u64, scope: String },
    /// 201 with the registered client's credentials.
    Registered {
        client_id: String,
        client_secret: Option<String>,
        client_name: Option<String>,
        redirect_uris: Vec<String>,
    },
}

/// The mathematical form of an [`OAuthResponse`].
pub enum OAuthReply {
    Redirect(Seq<char>),
    Error { status: u16, error: Seq<char>, description: Seq<char> },
    ConsentPage { csrf_nonce: Seq<char>, pin_required: bool },
    Token { access_token: Seq<char>, refresh_token: Seq<char>, expires_in: u64, scope: Seq<char> },
    Registered {
        client_id: Seq<char>,
        client_secret: Option<Seq<char>>,
        client_name: Option<Seq<char>>,
        redirect_uris: Seq<Seq<char>>,
    },
}

impl View for OAuthResponse {
    type V = OAuthReply;

    open spec fn view(&self) -> OAuthReply {
        match self {
            OAuthResponse::Redirect(l) => OAuthReply::Redirect(l@),
            OAuthResponse::Error { status, error, description } => OAuthReply::Error {
                status: *status,
                error: error@,
                description: description@,
            },
            OAuthResponse::ConsentPage { csrf_nonce, pin_required } => OAuthReply::ConsentPage {
                csrf_nonce: csrf_nonce@,
                pin_required: *pin_required,
            },
            OAuthResponse::Token { access_token, refresh_token, expires_in, scope } => OAuthReply::Token {
                access_token: access_token@,
                refresh_token: refresh_token@,
                expires_in: *expires_in,
                scope: scope@,
            },
            OAuthResponse::Registered { client_id, client_secret, client_name, redirect_uris } =>
                OAuthReply::Registered {
                client_id: client_id@,
                client_secret: opt_view(*client_secret),
                client_name: opt_view(*client_name),
                redirect_uris: strings_view(redirect_uris@),
            },
        }
    }
}

/// The percent-encoding of the UTF-8 bytes of `s`.
pub open spec fn url_encoded(s: Seq<char>) -> Seq<char> {
    percent_encode(vstd::utf8::encode_utf8(s))
}

/// `&state={state}` when `state` is not empty.
pub open spec fn state_suffix(state: Seq<char>) -> Seq<char> {
    if state.len() > 0 {
        "&state="@ + url_encoded(state)
    } else {
        seq![]
    }
}

/// The redirect that reports `error` to the client:
/// `{redirect_uri}?error={error}&error_description={description}[&state={state}]`.
pub open spec fn error_location(
    redirect_uri: Seq<char>,
    state: Seq<char>,
    error: Seq<char>,
    description: Seq<char>,
) -> Seq<char> {
    redirect_uri + "?error="@ + error + "&error_description="@ + url_encoded(description) + state_suffix(state)
}

/// The redirect that hands `code` to the client: `{redirect_uri}?code={code}[&state={state}]`.
pub open spec fn code_location(redirect_uri: Seq<char>, code: Seq<char>, state: Seq<char>) -> Seq<char> {
    redirect_uri + "?code="@ + code + state_suffix(state)
}

/// The text of an optional string, empty when absent.
pub open spec fn or_empty(s: Option<String>) -> Seq<char> {
    match s {
        Some(v) => v@,
        None => seq![],
    }
}

fn append_state(url: &mut String, state: &str)
    ensures
        final(url)@ == old(url)@ + state_suffix(state@),
{
    if !state.is_empty() {
        push_str(url, "&state=");
        let encoded = url_encode(state);
        push_str(url, encoded.as_str());
    } else {
        assert(old(url)@ + state_suffix(state@) =~= old(url)@);
    }
}

/// The redirect reporting `error` (with `description`) to `redirect_uri`.
pub fn redirect_with_error(redirect_uri: &str, state: &str, error: &str, description: &str) -> (url: String)
    ensures
        url@ == error_location(redirect_uri@, state@, error@, description@),
{
    let mut url = String::from_str(redirect_uri);
    push_str(&mut url, "?error=");
    push_str(&mut url, error);
    push_str(&mut url, "&error_description=");
    let encoded = url_encode(description);
    push_str(&mut url, encoded.as_str());
    append_state(&mut url, state);
    url
}

/// [`redirect_with_error`] with an optional `state`.
pub fn error_redirect_or_json(redirect_uri: &str, state: &Option<String>, error: &str, description: &str) -> (url:
    String)
    ensures
        url@ == error_location(redirect_uri@, or_empty(*state), error@, description@),
{
    match state {
        Some(s) => redirect_with_error(redirect_uri, s.as_str(), error, description),
        None => {
            proof {
                reveal_strlit("");
            }
            redirect_with_error(redirect_uri, "", error, description)
        },
    }
}

/// The requested scopes that this server knows, `read` and `write`, in order.
pub open spec fn known_scopes(ws: Seq<Seq<char>>) -> Seq<Seq<char>>
    decreases ws.len(),
{
    if ws.len() == 0 {
        seq![]
    } else {
        let rest = known_scopes(ws.drop_last());
        if ws.last() == "read"@ || ws.last() == "write"@ {
            rest.push(ws.last())
        } else {
            rest
        }
    }
}

/// The scopes granted for a requested `scope` string: its known words, or
/// `read` alone when it names none.
pub open spec fn granted_scope(scope: Seq<char>) -> Seq<Seq<char>> {
    let k = known_scopes(words(scope));
    if k.len() == 0 {
        seq!["read"@]
    } else {
        k
    }
}

/// The scopes granted for a requested `scope` string.
pub fn grant_scopes(scope: &str) -> (r: Vec<String>)
    ensures
        strings_view(r@) == granted_scope(scope@),
{
    let ws = split_whitespace(scope);
    let ghost all = ws@.map_values(|w: String| w@);
    let mut kept: Vec<String> = Vec::new();
    let n = ws.len();
    let mut i: usize = 0;
    assert(all.subrange(0, 0) =~= Seq::<Seq<char>>::empty());
    while i < n
        invariant
            i <= n,
            n == ws@.len(),
            all == ws@.map_values(|w: String| w@),
            strings_view(kept@) == known_scopes(all.subrange(0, i as int)),
        decreases n - i,
    {
        assert(all.subrange(0, i + 1).drop_last() =~= all.subrange(0, i as int));
        assert(all.subrange(0, i + 1).last() == ws@[i as int]@);
        let w = ws[i].as_str();
        let ghost before = strings_view(kept@);
        proof {
            reveal_strlit("read");
            reveal_strlit("write");
        }
        if str_eq(w, "read") || str_eq(w, "write") {
            kept.push(ws[i].clone());
            assert(strings_view(kept@) =~= before.push(ws@[i as int]@));
        }
        i = i + 1;
    }
    assert(all.subrange(0, n as int) =~= all);
    if kept.len() == 0 {
        let mut r: Vec<String> = Vec::new();
        r.push(String::from_str("read"));
        assert(strings_view(r@) =~= seq!["read"@]);
        r
    } else {
        kept
    }
}

/// What `GET /oauth/authorize` answers, and the store afterwards. The client
/// and its redirect URI are checked first: until both are known, no error is
/// sent to the redirect URI, which answers a plain 400 instead.
pub open spec fn authorize_spec(
    m: StoreModel,
    now: u128,
    nonce_suffix: Seq<char>,
    pin_required: bool,
    q: AuthorizeQuery,
) -> (StoreModel, OAuthReply) {
    let uri = q.redirect_uri@;
    let st = or_empty(q.state);
    if !redirect_allowed(m, q.client_id@, uri) {
        (m, OAuthReply::Error { status: 400, error: "invalid_request"@, description: "Unknown client_id or redirect_uri mismatch"@ })
    } else if q.response_type@ != "code"@ {
        (m, OAuthReply::Redirect(error_location(uri, st, "unsupported_response_type"@, "Only response_type=code is supported"@)))
    } else if q.code_challenge_method is None {
        (m, OAuthReply::Redirect(error_location(uri, st, "invalid_request"@, "code_challenge and code_challenge_method=S256 are required"@)))
    } else if q.code_challenge_method.unwrap()@ != "S256"@ {
        (
            m,
            OAuthReply::Redirect(
                error_location(
                    uri,
                    st,
                    "invalid_request"@,
                    "Unsupported code_challenge_method: "@ + q.code_challenge_method.unwrap()@ + ". Only S256 is supported."@,
                ),
            ),
        )
    } else if q.code_challenge is None {
        (m, OAuthReply::Redirect(error_location(uri, st, "invalid_request"@, "code_challenge is required"@)))
    } else {
        let (m1, nonce) = create_nonce_step(m, now, nonce_suffix);
        (m1, OAuthReply::ConsentPage { csrf_nonce: nonce, pin_required })
    }
}

fn invalid_client_error() -> (r: OAuthResponse)
    ensures
        r@ == (OAuthReply::Error { status: 400, error: "invalid_request"@, description: "Unknown client_id or redirect_uri mismatch"@ }),
{
    OAuthResponse::Error {
        status: 400,
        error: String::from_str("invalid_request"),
        description: String::from_str("Unknown client_id or redirect_uri mismatch"),
    }
}

/// `GET /oauth/authorize` at time `now`, issuing the CSRF nonce
/// `myapp_csrf_{nonce_suffix}` when the request is accepted.
pub fn authorize_with(
    store: &mut OAuthStore,
    now: u128,
    nonce_suffix: &str,
    pin_required: bool,
    params: &AuthorizeQuery,
) -> (r: OAuthResponse)
    ensures
        (final(store)@, r@) == authorize_spec(old(store)@, now, nonce_suffix@, pin_required, *params),
        r@ is Redirect ==> redirect_allowed(old(store)@, params.client_id@, params.redirect_uri@),
{
    let uri = params.redirect_uri.as_str();
    if !store.validate_redirect_uri(params.client_id.as_str(), uri) {
        return invalid_client_error();
    }
    if !str_eq(params.response_type.as_str(), "code") {
        return OAuthResponse::Redirect(
            error_redirect_or_json(uri, &params.state, "unsupported_response_type", "Only response_type=code is supported"),
        );
    }
    match &params.code_challenge_method {
        None => {
            return OAuthResponse::Redirect(
                error_redirect_or_json(
                    uri,
                    &params.state,
                    "invalid_request",
                    "code_challenge and code_challenge_method=S256 are required",
                ),
            );
        },
        Some(method) => {
            if !str_eq(method.as_str(), "S256") {
                let mut description = String::from_str("Unsupported code_challenge_method: ");
                push_str(&mut description, method.as_str());
                push_str(&mut description, ". Only S256 is supported.");
                return OAuthResponse::Redirect(
                    error_redirect_or_json(uri, &params.state, "invalid_request", description.as_str()),
                );
            }
        },
    }
    if params.code_challenge.is_none() {
        return OAuthResponse::Redirect(
            error_redirect_or_json(uri, &params.state, "invalid_request", "code_challenge is required"),
        );
    }
    let csrf_nonce = store.create_csrf_nonce_with(now, nonce_suffix);
    OAuthResponse::ConsentPage { csrf_nonce, pin_required }
}

/// `GET /oauth/authorize`: validates the client and its redirect URI, then the
/// authorization request, and answers with the consent page. Requires a PKCE `code_challenge` with method `S256`.
pub fn authorize(store: &mut OAuthStore, pin_required: bool, params: &AuthorizeQuery) -> (r: OAuthResponse)
    ensures
        exists|now: u128, suffix: Seq<char>|
            (final(store)@, r@) == #[trigger] authorize_spec(old(store)@, now, suffix, pin_required, *params),
        r@ is Redirect ==> redirect_allowed(old(store)@, params.client_id@, params.redirect_uri@),
        !redirect_allowed(old(store)@, params.client_id@, params.redirect_uri@) ==> final(store)@ == old(store)@,
{
    let now = store.now();
    let suffix = random_id();
    authorize_with(store, now, suffix.as_str(), pin_required, params)
}

/// What `POST /oauth/approve` answers, and the store afterwards.
pub open spec fn approve_spec(
    m: StoreModel,
    now: u128,
    code_suffix: Seq<char>,
    oauth_pin: Option<Seq<char>>,
    form: ApprovalForm,
) -> (StoreModel, OAuthReply) {
    let uri = form.redirect_uri@;
    let st = or_empty(form.state);
    let (m1, nonce_ok) = consume_nonce_step(m, now, form.csrf_nonce@);
    if !nonce_ok {
        (m1, OAuthReply::Error { status: 403, error: "invalid_request"@, description: "Invalid or expired CSRF nonce"@ })
    } else if !redirect_allowed(m1, form.client_id@, uri) {
        (m1, OAuthReply::Error { status: 400, error: "invalid_request"@, description: "Unknown client_id or redirect_uri mismatch"@ })
    } else if form.approved@ != "true"@ {
        (m1, OAuthReply::Redirect(error_location(uri, st, "access_denied"@, "User denied the authorization request"@)))
    } else if oauth_pin is Some && vstd::utf8::encode_utf8(oauth_pin.unwrap()) != vstd::utf8::encode_utf8(
        or_empty(form.pin),
    ) {
        (m1, OAuthReply::Redirect(error_location(uri, st, "access_denied"@, "Invalid PIN"@)))
    } else {
        let (m2, code) = create_code_step(
            m1,
            now,
            code_suffix,
            form.client_id@,
            uri,
            granted_scope(form.scope@),
            form.code_challenge@,
        );
        (m2, OAuthReply::Redirect(code_location(uri, code, st)))
    }
}

/// `POST /oauth/approve` at time `now`, issuing the authorization code
/// `myapp_ac_{code_suffix}` on approval.
pub fn approve_with(
    store: &mut OAuthStore,
    now: u128,
    code_suffix: &str,
    oauth_pin: &Option<String>,
    form: ApprovalForm,
) -> (r: OAuthResponse)
    ensures
        (final(store)@, r@) == approve_spec(old(store)@, now, code_suffix@, opt_view(*oauth_pin), form),
{
    let ghost f = form;
    let state_param = match &form.state {
        Some(s) => s.clone(),
        None => String::new(),
    };
    assert(state_param@ == or_empty(f.state));
    if !store.consume_csrf_nonce_with(now, form.csrf_nonce.as_str()) {
        return OAuthResponse::Error {
            status: 403,
            error: String::from_str("invalid_request"),
            description: String::from_str("Invalid or expired CSRF nonce"),
        };
    }
    if !store.validate_redirect_uri(form.client_id.as_str(), form.redirect_uri.as_str()) {
        return invalid_client_error();
    }
    if !str_eq(form.approved.as_str(), "true") {
        return OAuthResponse::Redirect(
            redirect_with_error(
                form.redirect_uri.as_str(),
                state_param.as_str(),
                "access_denied",
                "User denied the authorization request",
            ),
        );
    }
    if let Some(expected_pin) = oauth_pin {
        let provided = match &form.pin {
            Some(p) => p.clone(),
            None => String::new(),
        };
        assert(provided@ == or_empty(f.pin));
        if !secrets_match(expected_pin.as_str(), provided.as_str()) {
            return OAuthResponse::Redirect(
                redirect_with_error(form.redirect_uri.as_str(), state_param.as_str(), "access_denied", "Invalid PIN"),
            );
        }
    }
    let scope = grant_scopes(form.scope.as_str());
    let redirect_uri = form.redirect_uri.clone();
    let code = store.create_auth_code_with(now, code_suffix, form.client_id, form.redirect_uri, scope, form.code_challenge);
    let mut location = redirect_uri;
    push_str(&mut location, "?code=");
    push_str(&mut location, code.as_str());
    append_state(&mut location, state_param.as_str());
    OAuthResponse::Redirect(location)
}

/// `POST /oauth/approve`: processes the consent form. On approval, issues an
/// authorization code and redirects to the client's `redirect_uri`.
pub fn approve(store: &mut OAuthStore, oauth_pin: &Option<String>, form: ApprovalForm) -> (r: OAuthResponse)
    ensures
        exists|now: u128, suffix: Seq<char>|
            (final(store)@, r@) == #[trigger] approve_spec(old(store)@, now, suffix, opt_view(*oauth_pin), form),
{
    let now = store.now();
    let suffix = random_id();
    approve_with(store, now, suffix.as_str(), oauth_pin, form)
}

/// A token-endpoint error: status 400 with `error` and `description`.
pub open spec fn token_error_reply(error: Seq<char>, description: Seq<char>) -> OAuthReply {
    OAuthReply::Error { status: 400, error, description }
}

/// A token-endpoint success for the token `t`.
pub open spec fn token_reply(t: crate::store::AccessTokenView) -> OAuthReply {
    OAuthReply::Token {
        access_token: t.token,
        refresh_token: t.refresh_token,
        expires_in: t.expires_in,
        scope: join(t.scope, " "@),
    }
}

/// What `POST /oauth/token` answers, and the store afterwards.
pub open spec fn token_spec(
    m: StoreModel,
    now: u128,
    token_suffix: Seq<char>,
    refresh_suffix: Seq<char>,
    req: TokenRequest,
) -> (StoreModel, OAuthReply) {
    if req.grant_type@ == "authorization_code"@ {
        if req.code_verifier is None || req.code_verifier.unwrap()@.len() == 0 {
            (m, token_error_reply("invalid_request"@, "code_verifier is required"@))
        } else {
            let (m1, consumed) = consume_code_step(m, now, req.code@);
            match consumed {
                None => (m1, token_error_reply("invalid_grant"@, "Invalid or expired authorization code"@)),
                Some(c) => if s256_challenge(req.code_verifier.unwrap()@) != c.code_challenge {
                    (m1, token_error_reply("invalid_grant"@, "PKCE verification failed"@))
                } else if c.client_id != req.client_id@ || c.redirect_uri != req.redirect_uri@ {
                    (m1, token_error_reply("invalid_grant"@, "client_id or redirect_uri mismatch"@))
                } else {
                    let (m2, t) = create_token_step(m1, now, token_suffix, refresh_suffix, c.client_id, c.scope);
                    (m2, token_reply(t))
                },
            }
        }
    } else if req.grant_type@ == "refresh_token"@ {
        if req.refresh_token@.len() == 0 {
            (m, token_error_reply("invalid_request"@, "refresh_token is required"@))
        } else {
            let (m1, fresh) = refresh_step(m, now, token_suffix, refresh_suffix, req.refresh_token@);
            match fresh {
                Some(t) => (m1, token_reply(t)),
                None => (m1, token_error_reply("invalid_grant"@, "Invalid refresh token"@)),
            }
        }
    } else {
        (m, token_error_reply("unsupported_grant_type"@, "Supported: authorization_code, refresh_token"@))
    }
}

fn token_error(error: &str, description: &str) -> (r: OAuthResponse)
    ensures
        r@ == token_error_reply(error@, description@),
{
    OAuthResponse::Error { status: 400, error: String::from_str(error), description: String::from_str(description) }
}

fn token_response(t: &crate::store::AccessToken) -> (r: OAuthResponse)
    ensures
        r@ == token_reply(t@),
{
    OAuthResponse::Token {
        access_token: t.token.clone(),
        refresh_token: t.refresh_token.clone(),
        expires_in: t.expires_in,
        scope: join_strings(&t.scope, " "),
    }
}

/// The authorization-code grant at time `now`.
fn handle_code_exchange(
    store: &mut OAuthStore,
    now: u128,
    token_suffix: &str,
    refresh_suffix: &str,
    req: TokenRequest,
) -> (r: OAuthResponse)
    requires
        req.grant_type@ == "authorization_code"@,
    ensures
        (final(store)@, r@) == token_spec(old(store)@, now, token_suffix@, refresh_suffix@, req),
{
    proof {
        reveal_strlit("");
    }
    let code_verifier: &str = match &req.code_verifier {
        Some(v) => v.as_str(),
        None => "",
    };
    if code_verifier.is_empty() {
        return token_error("invalid_request", "code_verifier is required");
    }
    let auth_code = match store.consume_auth_code_with(now, req.code.as_str()) {
        Some(c) => c,
        None => {
            return token_error("invalid_grant", "Invalid or expired authorization code");
        },
    };
    if !verify_s256(code_verifier, auth_code.code_challenge.as_str()) {
        return token_error("invalid_grant", "PKCE verification failed");
    }
    if !str_eq(auth_code.client_id.as_str(), req.client_id.as_str()) || !str_eq(
        auth_code.redirect_uri.as_str(),
        req.redirect_uri.as_str(),
    ) {
        return token_error("invalid_grant", "client_id or redirect_uri mismatch");
    }
    let access_token = store.create_access_token_with(
        now,
        token_suffix,
        refresh_suffix,
        auth_code.client_id,
        auth_code.scope,
    );
    token_response(&access_token)
}

/// The refresh-token grant at time `now`.
fn handle_refresh(
    store: &mut OAuthStore,
    now: u128,
    token_suffix: &str,
    refresh_suffix: &str,
    req: TokenRequest,
) -> (r: OAuthResponse)
    requires
        req.grant_type@ == "refresh_token"@,
        req.grant_type@ != "authorization_code"@,
    ensures
        (final(store)@, r@) == token_spec(old(store)@, now, token_suffix@, refresh_suffix@, req),
{
    if req.refresh_token.as_str().is_empty() {
        return token_error("invalid_request", "refresh_token is required");
    }
    match store.refresh_access_token_with(now, token_suffix, refresh_suffix, req.refresh_token.as_str()) {
        Some(t) => token_response(&t),
        None => token_error("invalid_grant", "Invalid refresh token"),
    }
}

/// `POST /oauth/token` at time `now`, issuing `myapp_at_{token_suffix}` /
/// `myapp_rt_{refresh_suffix}` when a token is granted.
pub fn token_with(
    store: &mut OAuthStore,
    now: u128,
    token_suffix: &str,
    refresh_suffix: &str,
    req: TokenRequest,
) -> (r: OAuthResponse)
    ensures
        (final(store)@, r@) == token_spec(old(store)@, now, token_suffix@, refresh_suffix@, req),
{
    proof {
        reveal_strlit("authorization_code");
        reveal_strlit("refresh_token");
    }
    if str_eq(req.grant_type.as_str(), "authorization_code") {
        handle_code_exchange(store, now, token_suffix, refresh_suffix, req)
    } else if str_eq(req.grant_type.as_str(), "refresh_token") {
        handle_refresh(store, now, token_suffix, refresh_suffix, req)
    } else {
        token_error("unsupported_grant_type", "Supported: authorization_code, refresh_token")
    }
}

/// `POST /oauth/token`: exchanges an authorization code (`authorization_code`)
/// or rotates a refresh token (`refresh_token`).
pub fn token(store: &mut OAuthStore, req: TokenRequest) -> (r: OAuthResponse)
    ensures
        exists|now: u128, a: Seq<char>, b: Seq<char>|
            (final(store)@, r@) == #[trigger] token_spec(old(store)@, now, a, b, req),
{
    let now = store.now();
    let token_id = random_id();
    let refresh_id = random_id();
    token_with(store, now, token_id.as_str(), refresh_id.as_str(), req)
}

/// What `POST /oauth/register` answers, and the store afterwards.
pub open spec fn register_spec(
    m: StoreModel,
    id_suffix: Seq<char>,
    secret_suffix: Seq<char>,
    req: RegistrationRequest,
) -> (StoreModel, OAuthReply) {
    if req.redirect_uris@.len() == 0 {
        (m, OAuthReply::Error { status: 400, error: "invalid_request"@, description: "At least one redirect_uri is required"@ })
    } else {
        let (m1, c) = register_step(
            m,
            id_suffix,
            secret_suffix,
            opt_view(req.client_name),
            strings_view(req.redirect_uris@),
        );
        (
            m1,
            OAuthReply::Registered {
                client_id: c.client_id,
                client_secret: c.client_secret,
                client_name: c.client_name,
                redirect_uris: strings_view(req.redirect_uris@),
            },
        )
    }
}

/// `POST /oauth/register` with the client id `myapp_cid_{id_suffix}` and the
/// secret `myapp_cs_{secret_suffix}`.
pub fn register_with(store: &mut OAuthStore, id_suffix: &str, secret_suffix: &str, req: RegistrationRequest) -> (r:
    OAuthResponse)
    ensures
        (final(store)@, r@) == register_spec(old(store)@, id_suffix@, secret_suffix@, req),
{
    if req.redirect_uris.len() == 0 {
        return OAuthResponse::Error {
            status: 400,
            error: String::from_str("invalid_request"),
            description: String::from_str("At least one redirect_uri is required"),
        };
    }
    let redirect_uris = crate::store::clone_strings(&req.redirect_uris);
    let client = store.register_client_with(id_suffix, secret_suffix, req.client_name, req.redirect_uris);
    OAuthResponse::Registered {
        client_id: client.client_id,
        client_secret: client.client_secret,
        client_name: client.client_name,
        redirect_uris,
    }
}

/// `POST /oauth/register`: dynamic client registration. Answers the new
/// `client_id` and `client_secret`.
pub fn register(store: &mut OAuthStore, req: RegistrationRequest) -> (r: OAuthResponse)
    ensures
        exists|a: Seq<char>, b: Seq<char>| (final(store)@, r@) == #[trigger] register_spec(old(store)@, a, b, req),
{
    let id = random_id();
    let secret = random_id();
    register_with(store, id.as_str(), secret.as_str(), req)
}

/// `["read", "write"]`.
fn supported_scopes() -> (r: Vec<String>)
    ensures
        strings_view(r@) == seq!["read"@, "write"@],
{
    let mut v: Vec<String> = Vec::new();
    v.push(String::from_str("read"));
    v.push(String::from_str("write"));
    assert(strings_view(v@) =~= seq!["read"@, "write"@]);
    v
}

/// A one-element list.
fn single(s: &str) -> (r: Vec<String>)
    ensures
        strings_view(r@) == seq![s@],
{
    let mut v: Vec<String> = Vec::new();
    v.push(String::from_str(s));
    assert(strings_view(v@) =~= seq![s@]);
    v
}

/// `base_url` followed by `path`.
fn endpoint(base_url: &str, path: &str) -> (r: String)
    ensures
        r@ == base_url@ + path@,
{
    let mut r = String::from_str(base_url);
    push_str(&mut r, path);
    r
}

/// `GET /.well-known/oauth-protected-resource`: this server is both the
/// resource and its authorization server.
pub fn protected_resource_metadata(base_url: &str) -> (m: ProtectedResourceMetadata)
    ensures
        m.resource@ == base_url@,
        strings_view(m.authorization_servers@) == seq![base_url@],
        strings_view(m.scopes_supported@) == seq!["read"@, "write"@],
        strings_view(m.bearer_methods_supported@) == seq!["header"@],
{
    ProtectedResourceMetadata {
        resource: String::from_str(base_url),
        authorization_servers: single(base_url),
        scopes_supported: supported_scopes(),
        bearer_methods_supported: single("header"),
    }
}

/// `GET /.well-known/oauth-authorization-server`: the endpoints, grants and
/// PKCE methods of this server.
pub fn authorization_server_metadata(base_url: &str) -> (m: AuthorizationServerMetadata)
    ensures
        m.issuer@ == base_url@,
        m.authorization_endpoint@ == base_url@ + "/oauth/authorize"@,
        m.token_endpoint@ == base_url@ + "/oauth/token"@,
        m.registration_endpoint@ == base_url@ + "/oauth/register"@,
        strings_view(m.scopes_supported@) == seq!["read"@, "write"@],
        strings_view(m.response_types_supported@) == seq!["code"@],
        strings_view(m.grant_types_supported@) == seq!["authorization_code"@, "refresh_token"@],
        strings_view(m.code_challenge_methods_supported@) == seq!["S256"@],
        strings_view(m.token_endpoint_auth_methods_supported@) == seq!["none"@],
{
    let mut grants: Vec<String> = Vec::new();
    grants.push(String::from_str("authorization_code"));
    grants.push(String::from_str("refresh_token"));
    assert(strings_view(grants@) =~= seq!["authorization_code"@, "refresh_token"@]);
    AuthorizationServerMetadata {
        issuer: String::from_str(base_url),
        authorization_endpoint: endpoint(base_url, "/oauth/authorize"),
        token_endpoint: endpoint(base_url, "/oauth/token"),
        registration_endpoint: endpoint(base_url, "/oauth/register"),
        scopes_supported: supported_scopes(),
        response_types_supported: single("code"),
        grant_types_supported: grants,
        code_challenge_methods_supported: single("S256"),
        token_endpoint_auth_methods_supported: single("none"),
    }
}

/// The text of an optional string slice.
pub open spec fn opt_str(s: Option<&str>) -> Option<Seq<char>> {
    match s {
        Some(v) => Some(v@),
        None => None,
    }
}

/// The token of an `Authorization` header of the form `Bearer {token}`.
pub open spec fn bearer_token(authorization: Option<Seq<char>>) -> Option<Seq<char>> {
    match authorization {
        Some(h) => if "Bearer "@.len() <= h.len() && h.subrange(0, "Bearer "@.len() as int) == "Bearer "@ {
            Some(h.subrange("Bearer "@.len() as int, h.len() as int))
        } else {
            None
        },
        None => None,
    }
}

/// The token of an `Authorization: Bearer {token}` header, if it has that form.
pub fn strip_bearer(authorization: Option<&str>) -> (r: Option<String>)
    ensures
        match r {
            Some(t) => bearer_token(opt_str(authorization)) == Some(t@),
            None => bearer_token(opt_str(authorization)) is None,
        },
{
    match authorization {
        Some(h) => {
            if starts_with(h, "Bearer ") {
                let n = h.unicode_len();
                let prefix_len = "Bearer ".unicode_len();
                Some(substring(h, prefix_len, n))
            } else {
                None
            }
        },
        None => None,
    }
}

/// The `WWW-Authenticate` challenge answered with a 401:
/// `Bearer resource_metadata="{url}"`, with `, error="{error}"` when given.
pub open spec fn www_authenticate(resource_metadata_url: Seq<char>, error: Option<Seq<char>>) -> Seq<char> {
    match error {
        Some(e) => "Bearer resource_metadata=\""@ + resource_metadata_url + "\", error=\""@ + e + "\""@,
        None => "Bearer resource_metadata=\""@ + resource_metadata_url + "\""@,
    }
}

/// The `WWW-Authenticate` value of a 401 answer.
pub fn unauthorized_header(resource_metadata_url: &str, error: Option<&str>) -> (r: String)
    ensures
        r@ == www_authenticate(resource_metadata_url@, opt_str(error)),
{
    let mut r = String::from_str("Bearer resource_metadata=\"");
    push_str(&mut r, resource_metadata_url);
    match error {
        Some(e) => {
            push_str(&mut r, "\", error=\"");
            push_str(&mut r, e);
            push_str(&mut r, "\"");
        },
        None => {
            push_str(&mut r, "\"");
        },
    }
    r
}

/// Whether a request may reach the protected endpoint.
pub enum BearerDecision {
    /// Pass the request on.
    Allow,
    /// Answer 401 with this `WWW-Authenticate` value.
    Deny(String),
}

/// The decision on a request with `Authorization` header `authorization`, at
/// time `now`: no bearer token (or an empty one) is refused without an error
/// code; a token the store does not validate is refused as `invalid_token`.
pub open spec fn bearer_decision_spec(
    m: StoreModel,
    now: u128,
    resource_metadata_url: Seq<char>,
    authorization: Option<Seq<char>>,
) -> Option<Seq<char>> {
    match bearer_token(authorization) {
        Some(t) => if t.len() == 0 {
            Some(www_authenticate(resource_metadata_url, None))
        } else if validate_token(m, now, t) is Some {
            None
        } else {
            Some(www_authenticate(resource_metadata_url, Some("invalid_token"@)))
        },
        None => Some(www_authenticate(resource_metadata_url, None)),
    }
}

/// The denial an optional decision carries: `None` for [`BearerDecision::Allow`].
pub open spec fn denial(d: BearerDecision) -> Option<Seq<char>> {
    match d {
        BearerDecision::Allow => None,
        BearerDecision::Deny(h) => Some(h@),
    }
}

/// The OAuth bearer check at time `now`.
pub fn oauth_bearer_decision_with(
    store: &OAuthStore,
    now: u128,
    resource_metadata_url: &str,
    authorization: Option<&str>,
) -> (d: BearerDecision)
    ensures
        denial(d) == bearer_decision_spec(
            store@,
            now,
            resource_metadata_url@,
            opt_str(authorization),
        ),
{
    match strip_bearer(authorization) {
        Some(token) => {
            if token.as_str().is_empty() {
                return BearerDecision::Deny(unauthorized_header(resource_metadata_url, None));
            }
            match store.validate_access_token_with(now, token.as_str()) {
                Some(_) => BearerDecision::Allow,
                None => {
                    proof {
                        reveal_strlit("invalid_token");
                    }
                    BearerDecision::Deny(unauthorized_header(resource_metadata_url, Some("invalid_token")))
                },
            }
        },
        None => BearerDecision::Deny(unauthorized_header(resource_metadata_url, None)),
    }
}

/// Validates an OAuth 2.1 bearer token from the `Authorization` header.
pub fn oauth_bearer_auth(store: &OAuthStore, resource_metadata_url: &str, authorization: Option<&str>) -> (d:
    BearerDecision)
    ensures
        exists|now: u128|
            denial(d) == #[trigger] bearer_decision_spec(
                store@,
                now,
                resource_metadata_url@,
                opt_str(authorization),
            ),
{
    let now = store.now();
    oauth_bearer_decision_with(store, now, resource_metadata_url, authorization)
}

/// The fixed secret of `auth_mode = "token"`.
pub struct StaticAuthToken(pub String);

/// Whether the `Authorization` header carries exactly the configured bearer
/// token (a missing or malformed header counts as an empty token), compared in
/// constant time.
pub open spec fn static_bearer_ok(expected: Seq<char>, authorization: Option<Seq<char>>) -> bool {
    let provided = match bearer_token(authorization) {
        Some(t) => t,
        None => seq![],
    };
    vstd::utf8::encode_utf8(expected) == vstd::utf8::encode_utf8(provided)
}

/// The check of `auth_mode = "token"`: whether the request may pass.
pub fn static_bearer_auth(expected: &StaticAuthToken, authorization: Option<&str>) -> (ok: bool)
    ensures
        ok == static_bearer_ok(expected.0@, opt_str(authorization)),
{
    let provided = match strip_bearer(authorization) {
        Some(t) => t,
        None => String::new(),
    };
    secrets_match(expected.0.as_str(), provided.as_str())
}

/// A token exchange whose verifier does not match the code's challenge is
/// refused with `invalid_grant`; the code is spent and no token is issued.
pub proof fn lemma_pkce_failure_rejects(m: StoreModel, now: u128, a: Seq<char>, b: Seq<char>, req: TokenRequest)
    requires
        req.grant_type@ == "authorization_code"@,
        req.code_verifier is Some,
        req.code_verifier.unwrap()@.len() > 0,
        m.auth_codes.contains_key(req.code@),
        s256_challenge(req.code_verifier.unwrap()@) != m.auth_codes[req.code@].code_challenge,
    ensures
        ({
            let (after, reply) = token_spec(m, now, a, b, req);
            &&& reply == token_error_reply("invalid_grant"@, "PKCE verification failed"@) || reply
                == token_error_reply("invalid_grant"@, "Invalid or expired authorization code"@)
            &&& after.access_tokens == m.access_tokens
            &&& after.refresh_tokens == m.refresh_tokens
            &&& !after.auth_codes.contains_key(req.code@)
        }),
{
}

/// When a PIN is configured, a consent with a different PIN issues no code and
/// is answered `access_denied`.
pub proof fn lemma_wrong_pin_rejects(
    m: StoreModel,
    now: u128,
    code_suffix: Seq<char>,
    pin: Seq<char>,
    form: ApprovalForm,
)
    requires
        vstd::utf8::encode_utf8(pin) != vstd::utf8::encode_utf8(or_empty(form.pin)),
    ensures
        ({
            let (after, reply) = approve_spec(m, now, code_suffix, Some(pin), form);
            let consumed = consume_nonce_step(m, now, form.csrf_nonce@);
            &&& after.auth_codes == m.auth_codes
            &&& consumed.1 && redirect_allowed(consumed.0, form.client_id@, form.redirect_uri@)
                && form.approved@ == "true"@ ==> reply == OAuthReply::Redirect(
                error_location(form.redirect_uri@, or_empty(form.state), "access_denied"@, "Invalid PIN"@),
            )
        }),
{
}

/// An authorization code buys at most one token: exchanging it again is
/// refused as an invalid or expired code.
pub proof fn lemma_code_exchange_single_use(
    m: StoreModel,
    first: u128,
    second: u128,
    a: Seq<char>,
    b: Seq<char>,
    c: Seq<char>,
    d: Seq<char>,
    req: TokenRequest,
)
    requires
        req.grant_type@ == "authorization_code"@,
        req.code_verifier is Some,
        req.code_verifier.unwrap()@.len() > 0,
    ensures
        ({
            let (after, _) = token_spec(m, first, a, b, req);
            token_spec(after, second, c, d, req).1 == token_error_reply(
                "invalid_grant"@,
                "Invalid or expired authorization code"@,
            )
        }),
{
}

/// The whole authorization-code flow: a client that registers a redirect
/// URI, is shown the consent page, approves (with the right PIN, when one is
/// set) and exchanges the code with the verifier of its challenge, each step
/// within the lifetimes involved, receives a bearer token that the protected
/// endpoint accepts for the token's lifetime.
pub proof fn lemma_full_flow(
    m0: StoreModel,
    id_suffix: Seq<char>,
    secret_suffix: Seq<char>,
    registration: RegistrationRequest,
    t1: u128,
    nonce_suffix: Seq<char>,
    q: AuthorizeQuery,
    t2: u128,
    code_suffix: Seq<char>,
    pin: Option<Seq<char>>,
    form: ApprovalForm,
    t3: u128,
    token_suffix: Seq<char>,
    refresh_suffix: Seq<char>,
    req: TokenRequest,
    t4: u128,
    resource_metadata_url: Seq<char>,
)
    requires
        strings_view(registration.redirect_uris@).contains(q.redirect_uri@),
        q.response_type@ == "code"@,
        q.code_challenge_method matches Some(method) && method@ == "S256"@,
        q.code_challenge is Some,
        q.client_id@ == CLIENT_ID_PREFIX@ + id_suffix,
        form.csrf_nonce@ == CSRF_NONCE_PREFIX@ + nonce_suffix,
        form.client_id@ == q.client_id@,
        form.redirect_uri@ == q.redirect_uri@,
        form.approved@ == "true"@,
        pin matches Some(p) ==> vstd::utf8::encode_utf8(p) == vstd::utf8::encode_utf8(or_empty(form.pin)),
        req.grant_type@ == "authorization_code"@,
        req.code@ == AUTH_CODE_PREFIX@ + code_suffix,
        req.client_id@ == q.client_id@,
        req.redirect_uri@ == q.redirect_uri@,
        req.code_verifier matches Some(v) && v@.len() > 0 && s256_challenge(v@) == form.code_challenge@,
        within(t2, t1, m0.config.csrf_nonce_ttl_secs),
        within(t3, t2, m0.config.auth_code_ttl_secs),
        within(t4, t3, m0.config.token_expiry_secs),
    ensures
        ({
            let (m1, registered) = register_spec(m0, id_suffix, secret_suffix, registration);
            let (m2, consent) = authorize_spec(m1, t1, nonce_suffix, pin is Some, q);
            let (m3, approval) = approve_spec(m2, t2, code_suffix, pin, form);
            let (m4, granted) = token_spec(m3, t3, token_suffix, refresh_suffix, req);
            let access = ACCESS_TOKEN_PREFIX@ + token_suffix;
            &&& registered matches OAuthReply::Registered { client_id, .. } && client_id == q.client_id@
            &&& consent == OAuthReply::ConsentPage { csrf_nonce: form.csrf_nonce@, pin_required: pin is Some }
            &&& approval == OAuthReply::Redirect(code_location(q.redirect_uri@, req.code@, or_empty(form.state)))
            &&& granted matches OAuthReply::Token { access_token, expires_in, .. } && access_token == access
                && expires_in == m0.config.token_expiry_secs
            &&& validate_token(m4, t4, access) is Some
            &&& bearer_decision_spec(m4, t4, resource_metadata_url, Some("Bearer "@ + access)) is None
        }),
{
    let (m1, registered) = register_spec(m0, id_suffix, secret_suffix, registration);
    assert(redirect_allowed(m1, q.client_id@, q.redirect_uri@));
    let (m2, consent) = authorize_spec(m1, t1, nonce_suffix, pin is Some, q);
    assert(m2.csrf_nonces.contains_key(form.csrf_nonce@));
    let (m3, approval) = approve_spec(m2, t2, code_suffix, pin, form);
    assert(m3.auth_codes.contains_key(req.code@));
    let (m4, granted) = token_spec(m3, t3, token_suffix, refresh_suffix, req);
    let access = ACCESS_TOKEN_PREFIX@ + token_suffix;
    assert(m4.access_tokens.contains_key(access));
    let h = "Bearer "@ + access;
    assert(h.subrange(0, "Bearer "@.len() as int) =~= "Bearer "@);
    assert(h.subrange("Bearer "@.len() as int, h.len() as int) =~= access);
    assert(access.len() > 0) by {
        assert(access.len() >= ACCESS_TOKEN_PREFIX@.len());
        reveal_strlit("myapp_at_");
    }
}

/// The `<body>` tag of the consent page: it tells the page whether a PIN is
/// asked for and carries the CSRF nonce the form must send back.
pub open spec fn consent_body_tag(pin_required: bool, csrf_nonce: Seq<char>) -> Seq<char> {
    "<body data-pin-required=\""@ + (if pin_required {
        "true"@
    } else {
        "false"@
    }) + "\" data-csrf-nonce=\""@ + csrf_nonce + "\">"@
}

/// The consent page: `template` with its `<body>` tag replaced by one that
/// carries the PIN flag and the CSRF nonce.
pub fn consent_page(template: &str, csrf_nonce: &str, pin_required: bool) -> (html: String)
    ensures
        html@ == replace_all(template@, "<body>"@, consent_body_tag(pin_required, csrf_nonce@)),
{
    let mut tag = String::from_str("<body data-pin-required=\"");
    if pin_required {
        push_str(&mut tag, "true");
    } else {
        push_str(&mut tag, "false");
    }
    push_str(&mut tag, "\" data-csrf-nonce=\"");
    push_str(&mut tag, csrf_nonce);
    push_str(&mut tag, "\">");
    proof {
        reveal_strlit("<body>");
    }
    replace_str(template, "<body>", tag.as_str())
}

/// A consent form that does not approve (its `approved` field is anything but
/// `true`) issues no authorization code and no token: the store keeps its
/// codes and tokens, and a redirect, if any, reports `access_denied` to the
/// client. With a valid nonce and a registered redirect URI that redirect is
/// always sent.
pub proof fn lemma_denied_consent_issues_no_code(
    m: StoreModel,
    now: u128,
    code_suffix: Seq<char>,
    oauth_pin: Option<Seq<char>>,
    form: ApprovalForm,
)
    requires
        form.approved@ != "true"@,
    ensures
        ({
            let (m2, r) = approve_spec(m, now, code_suffix, oauth_pin, form);
            let denied = error_location(
                form.redirect_uri@,
                or_empty(form.state),
                "access_denied"@,
                "User denied the authorization request"@,
            );
            &&& m2.auth_codes == m.auth_codes
            &&& m2.access_tokens == m.access_tokens
            &&& m2.refresh_tokens == m.refresh_tokens
            &&& r matches OAuthReply::Redirect(loc) ==> loc == denied
            &&& r !is ConsentPage && r !is Token
            &&& consume_nonce_step(m, now, form.csrf_nonce@).1 && redirect_allowed(
                m,
                form.client_id@,
                form.redirect_uri@,
            ) ==> r == OAuthReply::Redirect(denied)
        }),
{
}

/// An authorization code is exchanged only by the client it was issued to,
/// for the redirect URI it was issued for: a request naming another client or
/// another redirect URI is refused (with `invalid_grant` once a verifier is
/// given) and issues no token.
pub proof fn lemma_code_exchange_checks_client_and_redirect(
    m: StoreModel,
    now: u128,
    token_suffix: Seq<char>,
    refresh_suffix: Seq<char>,
    req: TokenRequest,
)
    requires
        req.grant_type@ == "authorization_code"@,
        consume_code_step(m, now, req.code@).1 matches Some(c) && (c.client_id != req.client_id@ || c.redirect_uri
            != req.redirect_uri@),
    ensures
        ({
            let (m2, r) = token_spec(m, now, token_suffix, refresh_suffix, req);
            &&& m2.access_tokens == m.access_tokens
            &&& m2.refresh_tokens == m.refresh_tokens
            &&& r is Error && r->status == 400
            &&& req.code_verifier is Some && req.code_verifier.unwrap()@.len() > 0 ==> r->error == "invalid_grant"@
        }),
{
}

} // verus!
