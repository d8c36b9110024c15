use myapp::oauth::{
    approve, authorization_server_metadata, authorize, oauth_bearer_auth, protected_resource_metadata, register,
    static_bearer_auth, strip_bearer, token, unauthorized_header, ApprovalForm, AuthorizeQuery, BearerDecision,
    OAuthResponse, RegistrationRequest, StaticAuthToken, TokenRequest,
};
use myapp::pkce::{challenge_from_verifier, verify_s256};
use myapp::store::{OAuthStore, OAuthStoreConfig};

const BASE: &str = "http://127.0.0.1:9999";

fn resource_metadata_url() -> String {
    format!("{BASE}/.well-known/oauth-protected-resource")
}

fn registered_client_id(store: &mut OAuthStore, name: Option<&str>, redirect: &str) -> String {
    let response = register(
        store,
        RegistrationRequest { client_name: name.map(str::to_string), redirect_uris: vec![redirect.to_string()] },
    );
    match response {
        OAuthResponse::Registered { client_id, .. } => client_id,
        _ => panic!("registration failed"),
    }
}

fn approval(client_id: &str, scope: &str, state: &str, challenge: &str, pin: &str, nonce: &str) -> ApprovalForm {
    ApprovalForm {
        client_id: client_id.to_string(),
        redirect_uri: "http://localhost/cb".to_string(),
        scope: scope.to_string(),
        state: Some(state.to_string()),
        code_challenge: challenge.to_string(),
        code_challenge_method: "S256".to_string(),
        approved: "true".to_string(),
        pin: Some(pin.to_string()),
        csrf_nonce: nonce.to_string(),
    }
}

fn code_request(code: &str, client_id: &str, verifier: &str) -> TokenRequest {
    TokenRequest {
        grant_type: "authorization_code".to_string(),
        code: code.to_string(),
        client_id: client_id.to_string(),
        redirect_uri: "http://localhost/cb".to_string(),
        code_verifier: Some(verifier.to_string()),
        refresh_token: String::new(),
    }
}

fn refresh_request(refresh_token: &str) -> TokenRequest {
    TokenRequest {
        grant_type: "refresh_token".to_string(),
        code: String::new(),
        client_id: String::new(),
        redirect_uri: String::new(),
        code_verifier: None,
        refresh_token: refresh_token.to_string(),
    }
}

fn query_value(location: &str, key: &str) -> Option<String> {
    let query = location.split_once('?')?.1;
    query.split('&').find_map(|pair| {
        let (k, v) = pair.split_once('=')?;
        if k == key {
            Some(v.to_string())
        } else {
            None
        }
    })
}

fn location_of(response: OAuthResponse) -> String {
    match response {
        OAuthResponse::Redirect(location) => location,
        _ => panic!("expected a redirect"),
    }
}

fn bearer(token: &str) -> String {
    format!("Bearer {token}")
}

#[test]
fn valid_s256_verifier() {
    let verifier = "dBjftJeZ4CVP-mB92K27uhbUJU1p1r_wW1gFWFOEjXk";
    let challenge = challenge_from_verifier(verifier);
    assert!(verify_s256(verifier, &challenge));
}

#[test]
fn wrong_verifier_fails() {
    let verifier = "correct-verifier";
    let challenge = challenge_from_verifier(verifier);
    assert!(!verify_s256("wrong-verifier", &challenge));
}

#[test]
fn rfc7636_appendix_b_vector() {
    let verifier = "dBjftJeZ4CVP-mB92K27uhbUJU1p1r_wW1gFWFOEjXk";
    let expected_challenge = "E9Melhoa2OwvFrEMTJguCHaoeK1t8URWbuGJSstw-cM";
    assert!(verify_s256(verifier, expected_challenge));
    assert_eq!(challenge_from_verifier(verifier), expected_challenge);
}

#[test]
fn register_and_get_client() {
    let mut store = OAuthStore::new(OAuthStoreConfig::default());
    let client = store.register_client(Some("test".into()), vec!["http://localhost/cb".into()]);
    assert!(client.client_id.starts_with("myapp_cid_"));
    assert!(client.client_secret.is_some());
}

#[test]
fn validate_redirect_uri() {
    let mut store = OAuthStore::new(OAuthStoreConfig::default());
    let client = store.register_client(None, vec!["http://localhost/cb".into()]);
    assert!(store.validate_redirect_uri(&client.client_id, "http://localhost/cb"));
    assert!(!store.validate_redirect_uri(&client.client_id, "http://evil.com/cb"));
    assert!(!store.validate_redirect_uri("myapp_cid_unknown", "http://localhost/cb"));
}

#[test]
fn auth_code_lifecycle() {
    let mut store = OAuthStore::new(OAuthStoreConfig::default());
    let code = store.create_auth_code(
        "cid".into(),
        "http://localhost/cb".into(),
        vec!["read".into()],
        "challenge123".into(),
    );
    assert!(code.starts_with("myapp_ac_"));
    let auth_code = store.consume_auth_code(&code).unwrap();
    assert_eq!(auth_code.client_id, "cid");
    assert_eq!(auth_code.code_challenge, "challenge123");
    assert!(store.consume_auth_code(&code).is_none());
}

#[test]
fn access_token_lifecycle() {
    let mut store = OAuthStore::new(OAuthStoreConfig::default());
    let access_token = store.create_access_token("cid".into(), vec!["read".into()]);
    assert!(access_token.token.starts_with("myapp_at_"));
    assert!(access_token.refresh_token.starts_with("myapp_rt_"));
    let validated = store.validate_access_token(&access_token.token).unwrap();
    assert_eq!(validated.client_id, "cid");
    assert_eq!(validated.scope, vec!["read"]);
}

#[test]
fn refresh_token_rotates() {
    let mut store = OAuthStore::new(OAuthStoreConfig::default());
    let first_token = store.create_access_token("cid".into(), vec!["read".into()]);
    let second_token = store.refresh_access_token(&first_token.refresh_token).unwrap();
    assert_ne!(second_token.token, first_token.token);
    assert_ne!(second_token.refresh_token, first_token.refresh_token);
    assert!(store.validate_access_token(&first_token.token).is_none());
    assert!(store.refresh_access_token(&first_token.refresh_token).is_none());
    assert!(store.validate_access_token(&second_token.token).is_some());
}

fn wait_past_zero_lifetime() {
    let start = std::time::Instant::now();
    while start.elapsed() < std::time::Duration::from_millis(10) {
        std::hint::spin_loop();
    }
}

#[test]
fn expired_token_invalid() {
    let config = OAuthStoreConfig { token_expiry_secs: 0, ..Default::default() };
    let mut store = OAuthStore::new(config);
    let access_token = store.create_access_token("cid".into(), vec!["read".into()]);
    wait_past_zero_lifetime();
    assert!(store.validate_access_token(&access_token.token).is_none());
}

#[test]
fn sweep_removes_expired() {
    let config = OAuthStoreConfig { token_expiry_secs: 0, ..Default::default() };
    let mut store = OAuthStore::new(config);
    let access_token = store.create_access_token("cid".into(), vec!["read".into()]);
    wait_past_zero_lifetime();
    store.sweep_expired();
    assert!(store.validate_access_token(&access_token.token).is_none());
    assert!(store.refresh_access_token(&access_token.refresh_token).is_none());
}

#[test]
fn csrf_nonce_is_single_use() {
    let mut store = OAuthStore::new(OAuthStoreConfig::default());
    let nonce = store.create_csrf_nonce();
    assert!(store.consume_csrf_nonce(&nonce));
    assert!(!store.consume_csrf_nonce(&nonce));
    assert!(!store.consume_csrf_nonce("never-issued"));
}

#[test]
fn expired_nonce_and_code_are_refused() {
    let config = OAuthStoreConfig { auth_code_ttl_secs: 0, csrf_nonce_ttl_secs: 0, token_expiry_secs: 3600 };
    let mut store = OAuthStore::new(config);
    let nonce = store.create_csrf_nonce();
    let code = store.create_auth_code("cid".into(), "http://localhost/cb".into(), vec![], "c".into());
    wait_past_zero_lifetime();
    assert!(!store.consume_csrf_nonce(&nonce));
    assert!(store.consume_auth_code(&code).is_none());
}

#[test]
fn protected_route_requires_auth() {
    let store = OAuthStore::new(OAuthStoreConfig::default());
    match oauth_bearer_auth(&store, &resource_metadata_url(), None) {
        BearerDecision::Deny(www_auth) => {
            assert!(www_auth.contains("oauth-protected-resource"), "WWW-Authenticate: {www_auth}");
            assert_eq!(
                www_auth,
                format!("Bearer resource_metadata=\"{BASE}/.well-known/oauth-protected-resource\"")
            );
        },
        BearerDecision::Allow => panic!("request without a token must be refused"),
    }
}

#[test]
fn invalid_bearer_token_is_refused_with_error_code() {
    let store = OAuthStore::new(OAuthStoreConfig::default());
    let header = bearer("invalid-token");
    match oauth_bearer_auth(&store, &resource_metadata_url(), Some(&header)) {
        BearerDecision::Deny(www_auth) => assert_eq!(
            www_auth,
            format!("Bearer resource_metadata=\"{BASE}/.well-known/oauth-protected-resource\", error=\"invalid_token\"")
        ),
        BearerDecision::Allow => panic!("an unknown token must be refused"),
    }
    assert_eq!(unauthorized_header("u", None), "Bearer resource_metadata=\"u\"");
}

#[test]
fn bearer_prefix_is_stripped() {
    assert_eq!(strip_bearer(Some("Bearer abc")).as_deref(), Some("abc"));
    assert_eq!(strip_bearer(Some("Basic abc")), None);
    assert_eq!(strip_bearer(None), None);
}

#[test]
fn metadata_endpoints_return_json() {
    let resource = protected_resource_metadata(BASE);
    assert!(!resource.authorization_servers.is_empty());
    assert!(resource.scopes_supported.iter().any(|scope| scope == "read"));
    assert!(resource.scopes_supported.iter().any(|scope| scope == "write"));
    let server = authorization_server_metadata(BASE);
    assert!(server.authorization_endpoint.contains("/oauth/authorize"));
    assert!(server.token_endpoint.contains("/oauth/token"));
    assert_eq!(server.code_challenge_methods_supported, vec!["S256"]);
}

#[test]
fn metadata_at_suffixed_path() {
    let resource = protected_resource_metadata(BASE);
    assert_eq!(resource.authorization_servers, vec![BASE.to_string()]);
    assert_eq!(resource.resource, BASE);
}

#[test]
fn openid_configuration_returns_metadata() {
    let server = authorization_server_metadata(BASE);
    assert!(server.authorization_endpoint.contains("/oauth/authorize"));
    assert_eq!(server.issuer, BASE);
    assert_eq!(server.registration_endpoint, format!("{BASE}/oauth/register"));
}

#[test]
fn dynamic_client_registration() {
    let mut store = OAuthStore::new(OAuthStoreConfig::default());
    let response = register(
        &mut store,
        RegistrationRequest {
            client_name: Some("Test Client".to_string()),
            redirect_uris: vec!["http://localhost:8080/callback".to_string()],
        },
    );
    match response {
        OAuthResponse::Registered { client_id, client_secret, client_name, redirect_uris } => {
            assert!(client_id.starts_with("myapp_cid_"));
            assert!(client_secret.is_some());
            assert_eq!(client_name.as_deref(), Some("Test Client"));
            assert_eq!(redirect_uris, vec!["http://localhost:8080/callback"]);
        },
        _ => panic!("expected a registration"),
    }
}

#[test]
fn registration_without_redirect_uris_is_refused() {
    let mut store = OAuthStore::new(OAuthStoreConfig::default());
    let response = register(&mut store, RegistrationRequest { client_name: None, redirect_uris: vec![] });
    assert!(matches!(response, OAuthResponse::Error { status: 400, .. }));
}

#[test]
fn consent_page_is_served_for_a_valid_request() {
    let mut store = OAuthStore::new(OAuthStoreConfig::default());
    let client_id = registered_client_id(&mut store, None, "http://localhost/cb");
    let challenge = challenge_from_verifier("test-verifier");
    let query = AuthorizeQuery {
        response_type: "code".to_string(),
        client_id: client_id.clone(),
        redirect_uri: "http://localhost/cb".to_string(),
        scope: None,
        state: None,
        code_challenge: Some(challenge),
        code_challenge_method: Some("S256".to_string()),
    };
    match authorize(&mut store, false, &query) {
        OAuthResponse::ConsentPage { csrf_nonce, pin_required } => {
            assert!(!pin_required);
            assert!(store.consume_csrf_nonce(&csrf_nonce));
        },
        _ => panic!("expected the consent page"),
    }
}

#[test]
fn authorize_without_pkce_is_refused() {
    let mut store = OAuthStore::new(OAuthStoreConfig::default());
    let client_id = registered_client_id(&mut store, None, "http://localhost/cb");
    let query = AuthorizeQuery {
        response_type: "code".to_string(),
        client_id,
        redirect_uri: "http://localhost/cb".to_string(),
        scope: None,
        state: Some("s".to_string()),
        code_challenge: None,
        code_challenge_method: None,
    };
    let location = location_of(authorize(&mut store, false, &query));
    assert!(location.starts_with("http://localhost/cb?error=invalid_request"), "{location}");
    assert!(location.ends_with("&state=s"), "{location}");
}

#[test]
fn authorize_for_unknown_client_answers_without_redirect() {
    let mut store = OAuthStore::new(OAuthStoreConfig::default());
    let query = AuthorizeQuery {
        response_type: "token".to_string(),
        client_id: "c".to_string(),
        redirect_uri: "http://localhost/cb".to_string(),
        scope: None,
        state: Some("s".to_string()),
        code_challenge: None,
        code_challenge_method: None,
    };
    match authorize(&mut store, false, &query) {
        OAuthResponse::Error { status, error, description } => {
            assert_eq!(status, 400);
            assert_eq!(error, "invalid_request");
            assert_eq!(description, "Unknown client_id or redirect_uri mismatch");
        },
        _ => panic!("an unknown client must not be redirected"),
    }
}

#[test]
fn authorize_with_unregistered_redirect_uri_answers_without_redirect() {
    let mut store = OAuthStore::new(OAuthStoreConfig::default());
    let client_id = registered_client_id(&mut store, None, "http://localhost/cb");
    let query = AuthorizeQuery {
        response_type: "code".to_string(),
        client_id,
        redirect_uri: "http://evil.example/cb".to_string(),
        scope: None,
        state: Some("s".to_string()),
        code_challenge: None,
        code_challenge_method: None,
    };
    assert!(matches!(authorize(&mut store, false, &query), OAuthResponse::Error { status: 400, .. }));
}

#[test]
fn authorize_unsupported_response_type_redirects_for_known_client() {
    let mut store = OAuthStore::new(OAuthStoreConfig::default());
    let client_id = registered_client_id(&mut store, None, "http://localhost/cb");
    let query = AuthorizeQuery {
        response_type: "token".to_string(),
        client_id,
        redirect_uri: "http://localhost/cb".to_string(),
        scope: None,
        state: Some("s".to_string()),
        code_challenge: None,
        code_challenge_method: None,
    };
    let location = location_of(authorize(&mut store, false, &query));
    assert!(location.starts_with("http://localhost/cb?error=unsupported_response_type"), "{location}");
}

#[test]
fn full_oauth_flow() {
    let mut store = OAuthStore::new(OAuthStoreConfig::default());
    let client_id = registered_client_id(&mut store, Some("Test"), "http://localhost/cb");

    let verifier = "test-verifier-string-that-is-long-enough-for-pkce";
    let challenge = challenge_from_verifier(verifier);

    let csrf_nonce = store.create_csrf_nonce();
    let form = approval(&client_id, "read write", "test-state", &challenge, "", &csrf_nonce);
    let location = location_of(approve(&mut store, &None, form));
    assert!(location.starts_with("http://localhost/cb?code=myapp_ac_"), "location: {location}");
    assert!(location.contains("state=test-state"), "location: {location}");
    let auth_code = query_value(&location, "code").unwrap();

    let (access_token, refresh_token) = match token(&mut store, code_request(&auth_code, &client_id, verifier)) {
        OAuthResponse::Token { access_token, refresh_token, scope, expires_in } => {
            assert_eq!(scope, "read write");
            assert_eq!(expires_in, 3600);
            (access_token, refresh_token)
        },
        _ => panic!("expected a token"),
    };
    assert!(access_token.starts_with("myapp_at_"));
    assert!(refresh_token.starts_with("myapp_rt_"));

    let header = bearer(&access_token);
    assert!(matches!(oauth_bearer_auth(&store, &resource_metadata_url(), Some(&header)), BearerDecision::Allow));
    let invalid = bearer("invalid-token");
    assert!(matches!(oauth_bearer_auth(&store, &resource_metadata_url(), Some(&invalid)), BearerDecision::Deny(_)));

    let new_access_token = match token(&mut store, refresh_request(&refresh_token)) {
        OAuthResponse::Token { access_token, .. } => access_token,
        _ => panic!("expected a refreshed token"),
    };
    assert_ne!(new_access_token, access_token, "new token should differ");
    assert!(matches!(oauth_bearer_auth(&store, &resource_metadata_url(), Some(&header)), BearerDecision::Deny(_)));
    let new_header = bearer(&new_access_token);
    assert!(matches!(oauth_bearer_auth(&store, &resource_metadata_url(), Some(&new_header)), BearerDecision::Allow));

    // The code was single-use.
    assert!(matches!(
        token(&mut store, code_request(&auth_code, &client_id, verifier)),
        OAuthResponse::Error { status: 400, .. }
    ));
}

#[test]
fn pkce_failure_rejects_token_exchange() {
    let mut store = OAuthStore::new(OAuthStoreConfig::default());
    let client_id = registered_client_id(&mut store, None, "http://localhost/cb");
    let challenge = challenge_from_verifier("correct-verifier");
    let csrf_nonce = store.create_csrf_nonce();
    let form = approval(&client_id, "read", "", &challenge, "", &csrf_nonce);
    let location = location_of(approve(&mut store, &None, form));
    let auth_code = query_value(&location, "code").unwrap();
    match token(&mut store, code_request(&auth_code, &client_id, "wrong-verifier")) {
        OAuthResponse::Error { status, error, description } => {
            assert_eq!(status, 400);
            assert_eq!(error, "invalid_grant");
            assert!(description.contains("PKCE"));
        },
        _ => panic!("a wrong verifier must be refused"),
    }
}

#[test]
fn pin_required_rejects_wrong_pin() {
    let mut store = OAuthStore::new(OAuthStoreConfig::default());
    let client_id = registered_client_id(&mut store, None, "http://localhost/cb");
    let challenge = challenge_from_verifier("verifier");
    let csrf_nonce = store.create_csrf_nonce();
    let form = approval(&client_id, "read", "s", &challenge, "wrong-pin", &csrf_nonce);
    let location = location_of(approve(&mut store, &Some("secret-pin".to_string()), form));
    assert!(location.contains("error=access_denied"), "location: {location}");
    assert!(location.contains("Invalid%20PIN") || location.contains("Invalid+PIN"), "location: {location}");
}

#[test]
fn reused_csrf_nonce_is_refused() {
    let mut store = OAuthStore::new(OAuthStoreConfig::default());
    let client_id = registered_client_id(&mut store, None, "http://localhost/cb");
    let challenge = challenge_from_verifier("verifier");
    let csrf_nonce = store.create_csrf_nonce();
    let form = approval(&client_id, "read", "", &challenge, "", &csrf_nonce);
    let _ = approve(&mut store, &None, form);
    let again = approval(&client_id, "read", "", &challenge, "", &csrf_nonce);
    assert!(matches!(approve(&mut store, &None, again), OAuthResponse::Error { status: 403, .. }));
}

#[test]
fn static_token_must_match_exactly() {
    let expected = StaticAuthToken("s3cret".to_string());
    let good = bearer("s3cret");
    let bad = bearer("s3cret2");
    assert!(static_bearer_auth(&expected, Some(&good)));
    assert!(!static_bearer_auth(&expected, Some(&bad)));
    assert!(!static_bearer_auth(&expected, None));
}

#[test]
fn consent_page_carries_nonce_and_pin_flag() {
    let html = myapp::oauth::consent_page("<html><body><p>x</p></body></html>", "myapp_csrf_n1", true);
    assert_eq!(
        html,
        "<html><body data-pin-required=\"true\" data-csrf-nonce=\"myapp_csrf_n1\"><p>x</p></body></html>"
    );
    let plain = myapp::oauth::consent_page("<body>", "n", false);
    assert_eq!(plain, "<body data-pin-required=\"false\" data-csrf-nonce=\"n\">");
}

#[test]
fn replace_is_left_to_right_without_overlap() {
    assert_eq!(myapp::text::replace_str("aaa", "aa", "b"), "ba");
    assert_eq!(myapp::text::replace_str("xyz", "q", "r"), "xyz");
    assert_eq!(myapp::text::replace_str("<body><body>", "<body>", "B"), "BB");
}
