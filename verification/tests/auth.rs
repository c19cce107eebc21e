use freenet_core::auth::api_key::{constant_time_eq, ApiKey, ApiKeyProvider, ApiKeyStore};
use freenet_core::auth::middleware::{
    extract_credential, legacy_token, require_admin, security_middleware, SecurityState,
};
use freenet_core::auth::provider::{
    AuthChain, AuthError, AuthProvider, AuthResult, EitherProvider, Outcome,
};
use freenet_core::auth::{ClientIdentity, Credential};
use freenet_core::authz::context::SecurityContext;
use freenet_core::authz::policy::{AccessPolicy, Permission, ResourceType, Role};
use freenet_core::client_events::{AuthToken, ClientId};

#[test]
fn test_api_key_generate_and_verify() {
    let (key, secret) = ApiKey::generate("test-key".into(), vec![Role::Admin]);
    assert!(key.verify(&secret));
    assert!(!key.verify("wrong-secret"));
}

#[test]
fn test_api_key_store_create_and_verify() {
    let mut store = ApiKeyStore::new();
    let (key, secret) = store.create_key("my-key".into(), vec![Role::User]);

    let found = store.verify(&secret);
    assert!(found.is_some());
    assert_eq!(found.unwrap().key_id, key.key_id);

    assert!(store.verify("bogus").is_none());
}

#[test]
fn test_api_key_store_revoke() {
    let mut store = ApiKeyStore::new();
    let (key, secret) = store.create_key("revokable".into(), vec![Role::User]);

    assert!(store.verify(&secret).is_some());
    assert!(store.revoke(&key.key_id));
    assert!(store.verify(&secret).is_none());
}

#[test]
fn test_api_key_provider_authenticate() {
    let mut store = ApiKeyStore::new();
    let (_key, secret) = store.create_key("provider-test".into(), vec![Role::Admin]);
    let provider = ApiKeyProvider::new(store);

    let result = provider.authenticate(&Credential::ApiKey(secret));
    assert!(result.is_ok());

    let result = provider.authenticate(&Credential::ApiKey("bad".into()));
    assert!(result.is_err());

    // Non-API-key credential returns NoCredentials
    let result = provider.authenticate(&Credential::Absent);
    assert!(matches!(result, Err(AuthError::NoCredentials)));
}

#[test]
fn test_constant_time_eq() {
    let a = [1u8, 2, 3, 4];
    let b = [1u8, 2, 3, 4];
    let c = [1u8, 2, 3, 5];
    assert!(constant_time_eq(&a, &b));
    assert!(!constant_time_eq(&a, &c));
    assert!(!constant_time_eq(&a, &[1, 2, 3]));
}

#[test]
fn test_permissive_security_state_allows_anonymous() {
    let state = SecurityState::permissive();
    let ctx = state.authenticate(&Credential::Absent, ClientId::first());
    assert!(ctx.identity.is_anonymous());
    assert!(ctx.has_permission(ResourceType::Contract, Permission::Read));
}

#[test]
fn test_strict_security_state_denies_anonymous() {
    let state = SecurityState::new(false, ApiKeyStore::new());
    let ctx = state.authenticate(&Credential::Absent, ClientId::first());
    // In strict mode, anonymous gets no roles
    assert!(!ctx.has_permission(ResourceType::Contract, Permission::Write));
}

#[test]
fn test_api_key_authentication_flow() {
    let mut store = ApiKeyStore::new();
    let (_key, secret) = store.create_key("test-admin".into(), vec![Role::Admin]);
    let state = SecurityState::new(false, store);

    let ctx = state.authenticate(&Credential::ApiKey(secret), ClientId::first());
    assert!(ctx.is_admin());
    assert!(!ctx.identity.is_anonymous());
}

#[test]
fn test_invalid_api_key_strict() {
    let state = SecurityState::new(false, ApiKeyStore::new());
    let ctx = state.authenticate(&Credential::ApiKey("bad-key".into()), ClientId::first());
    // Falls back to anonymous with no roles in strict mode
    assert!(ctx.identity.is_anonymous());
    assert!(!ctx.has_permission(ResourceType::Contract, Permission::Write));
}

#[test]
fn test_extract_credential_bearer() {
    let cred = extract_credential(Some(b"Bearer my-jwt-token"), None, None);
    assert!(matches!(cred, Credential::BearerToken(t) if t == "my-jwt-token"));
}

#[test]
fn test_extract_credential_api_key() {
    let cred = extract_credential(None, Some(b"my-api-key"), None);
    assert!(matches!(cred, Credential::ApiKey(k) if k == "my-api-key"));
}

#[test]
fn test_extract_credential_none() {
    let cred = extract_credential(None, None, None);
    assert!(matches!(cred, Credential::Absent));
}

#[test]
fn test_bearer_takes_priority_over_api_key() {
    let cred = extract_credential(Some(b"Bearer jwt-token"), Some(b"api-key"), None);
    assert!(matches!(cred, Credential::BearerToken(t) if t == "jwt-token"));
}

#[test]
fn bearer_token_is_trimmed() {
    let cred = extract_credential(Some(b"Bearer \t  a b \t "), None, None);
    assert_eq!(cred, Credential::BearerToken("a b".to_string()));
    let cred = extract_credential(Some(b"Bearer    "), None, None);
    assert_eq!(cred, Credential::BearerToken(String::new()));
}

#[test]
fn other_schemes_and_unreadable_headers_are_passed_over() {
    let cred = extract_credential(Some(b"Basic abc"), Some(b"key"), None);
    assert_eq!(cred, Credential::ApiKey("key".to_string()));
    let cred = extract_credential(Some(b"bearer abc"), None, None);
    assert_eq!(cred, Credential::Absent);
    let cred = extract_credential(Some(b"Bearer \x01"), Some(b"k\xff"), None);
    assert_eq!(cred, Credential::Absent);
}

#[test]
fn legacy_token_comes_last() {
    let legacy = || Some(AuthToken { token: "old".to_string() });
    let cred = extract_credential(None, None, legacy());
    assert_eq!(cred, Credential::LegacyToken(AuthToken { token: "old".to_string() }));
    let cred = extract_credential(None, Some(b"key"), legacy());
    assert_eq!(cred, Credential::ApiKey("key".to_string()));
}

#[test]
fn legacy_tokens_stand_in_queries() {
    let token = |q: &[u8]| legacy_token(q).map(|t| t.token);
    assert_eq!(token(b"authToken=abc"), Some("abc".to_string()));
    assert_eq!(token(b"a=1&authToken=x=y&authToken=z"), Some("x=y".to_string()));
    assert_eq!(token(b"&authToken="), Some(String::new()));
    assert_eq!(token(b""), None);
    assert_eq!(token(b"xauthToken=abc&authToke=1"), None);
    assert_eq!(token(b"authToken&AuthToken=1"), None);
}

#[test]
fn header_text_reads_like_the_http_crate() {
    for bytes in [&b"plain"[..], b"with\ttab", b"\x7f", b"caf\xc3\xa9"] {
        let value = axum::http::HeaderValue::from_bytes(bytes);
        let expected = match &value {
            Ok(v) => v.to_str().ok().map(|s| s.to_string()),
            Err(_) => None,
        };
        let got = match extract_credential(None, Some(bytes), None) {
            Credential::ApiKey(k) => Some(k),
            _ => None,
        };
        assert_eq!(got, expected);
    }
}

#[test]
fn key_from_given_bytes() {
    let (key, secret) = ApiKey::from_random("n".into(), vec![Role::User], [7u8; 32], [1u8; 8]);
    assert_eq!(secret, bs58::encode([7u8; 32]).into_string());
    assert_eq!(key.key_id, bs58::encode([1u8; 8]).into_string());
    let expected: [u8; 32] = <sha2::Sha256 as sha2::Digest>::digest(secret.as_bytes()).into();
    assert_eq!(key.key_hash, expected);
    assert!(key.enabled);
}

#[test]
fn generated_keys_differ() {
    let (a, sa) = ApiKey::generate("a".into(), vec![]);
    let (b, sb) = ApiKey::generate("b".into(), vec![]);
    assert_ne!(sa, sb);
    assert_ne!(a.key_id, b.key_id);
    assert_ne!(a.key_hash, b.key_hash);
}

#[test]
fn revoking_leaves_other_keys_alone() {
    let mut store = ApiKeyStore::default();
    let (a, sa) = store.create_key("a".into(), vec![Role::Admin]);
    let (_b, sb) = store.create_key("b".into(), vec![Role::ReadOnly]);
    assert_eq!(store.list_keys().len(), 2);
    assert!(!store.revoke("nobody"));
    assert!(store.revoke(&a.key_id));
    assert!(store.verify(&sa).is_none());
    assert!(store.verify(&sb).is_some());
    let listed = store.list_keys();
    assert_eq!(listed.len(), 2);
    assert_eq!(listed.iter().filter(|k| k.enabled).count(), 1);
    assert_eq!(store.roles_of(&a.key_id), Some(vec![Role::Admin]));
    assert_eq!(store.roles_of("nobody"), None);
}

#[test]
fn permissive_chain_takes_unknown_bearers_as_anonymous() {
    let state = SecurityState::permissive();
    let ctx = state.authenticate(&Credential::BearerToken("t".into()), ClientId { id: 5 });
    assert_eq!(ctx.identity, ClientIdentity::Anonymous(ClientId { id: 5 }));
    assert_eq!(ctx.roles, vec![Role::User]);
}

#[test]
fn strict_chain_refuses_unknown_bearers() {
    let chain = AuthChain::new(vec![ApiKeyProvider::new(ApiKeyStore::new())], false);
    let r = chain.authenticate(&Credential::BearerToken("t".into()), ClientId::first());
    match r {
        Err(e) => assert_eq!(
            e.message(),
            "invalid credentials: no provider accepted the credential"
        ),
        Ok(_) => panic!("expected a refusal"),
    }
    let r = chain.authenticate(&Credential::Absent, ClientId::first());
    assert!(matches!(r, Err(AuthError::NoCredentials)));
    let r = chain.authenticate(&Credential::ApiKey("x".into()), ClientId::first());
    assert!(matches!(r, Err(AuthError::InvalidCredentials { reason }) if reason == "invalid API key"));
}

struct Scripted {
    answer: fn() -> AuthResult,
}

impl AuthProvider for Scripted {
    fn ready(&self) -> bool {
        true
    }

    fn handles(&self, credential: Credential) -> bool {
        self.supports(&credential)
    }

    fn outcome(&self, _credential: Credential) -> Outcome {
        Outcome::NoCredentials
    }

    fn supports(&self, credential: &Credential) -> bool {
        matches!(credential, Credential::BearerToken(_))
    }

    fn authenticate(&self, _credential: &Credential) -> AuthResult {
        (self.answer)()
    }
}

#[test]
fn chain_goes_on_until_a_provider_accepts() {
    let bearer = || ClientIdentity::Bearer { subject: "s".into(), issuer: "i".into() };
    let pass: fn() -> AuthResult = || Err(AuthError::NoCredentials);
    let expired: fn() -> AuthResult = || Err(AuthError::Expired);
    let accept: fn() -> AuthResult =
        || Ok(ClientIdentity::Bearer { subject: "s".into(), issuer: "i".into() });
    let down: fn() -> AuthResult =
        || Err(AuthError::ProviderUnavailable { reason: "down".into() });
    let token = Credential::BearerToken("t".into());
    let chain = AuthChain::new(vec![Scripted { answer: pass }, Scripted { answer: accept }], false);
    assert_eq!(chain.authenticate(&token, ClientId::first()).unwrap(), bearer());
    let chain =
        AuthChain::new(vec![Scripted { answer: expired }, Scripted { answer: accept }], true);
    assert_eq!(chain.authenticate(&token, ClientId::first()).unwrap(), bearer());
    let chain = AuthChain::new(
        vec![Scripted { answer: pass }, Scripted { answer: expired }, Scripted { answer: down }],
        true,
    );
    let r = chain.authenticate(&token, ClientId::first());
    assert_eq!(r.unwrap_err().message(), "expired credentials");
    let chain = AuthChain::new(vec![Scripted { answer: pass }], true);
    assert!(chain.authenticate(&token, ClientId::first()).unwrap().is_anonymous());
    let chain = AuthChain::new(vec![Scripted { answer: down }], true);
    let r = chain.authenticate(&token, ClientId::first());
    assert_eq!(r.unwrap_err().message(), "authentication provider unavailable: down");
    assert_eq!(AuthError::NoCredentials.message(), "no credentials provided");
}

#[test]
fn chains_hold_providers_of_two_kinds() {
    let mut store = ApiKeyStore::new();
    let (_, secret) = store.create_key("k".into(), vec![Role::User]);
    let expired: fn() -> AuthResult = || Err(AuthError::Expired);
    let chain = AuthChain::new(
        vec![
            EitherProvider::First(Scripted { answer: expired }),
            EitherProvider::Second(ApiKeyProvider::new(store)),
        ],
        false,
    );
    let r = chain.authenticate(&Credential::ApiKey(secret), ClientId::first());
    assert!(matches!(r, Ok(ClientIdentity::ApiKey { .. })));
    let r = chain.authenticate(&Credential::BearerToken("t".into()), ClientId::first());
    assert!(matches!(r, Err(AuthError::Expired)));
}

#[test]
fn middleware_without_state_is_permissive() {
    let ctx = security_middleware(None, &Credential::Absent, ClientId { id: 3 });
    assert_eq!(ctx.identity, ClientIdentity::Anonymous(ClientId { id: 3 }));
    assert_eq!(ctx.roles, vec![Role::User]);
    let state = SecurityState::new(false, ApiKeyStore::new());
    let ctx = security_middleware(Some(&state), &Credential::Absent, ClientId { id: 3 });
    assert!(ctx.roles.is_empty());
}

#[test]
fn only_administrators_pass_the_admin_gate() {
    let ctx = SecurityContext::permissive(ClientId::first());
    assert_eq!(require_admin(&ctx), Some((403, "Admin access required")));
    let ctx = SecurityContext::new(
        ClientIdentity::Anonymous(ClientId::first()),
        ClientId::first(),
        vec![Role::User, Role::Admin],
        AccessPolicy::new(),
    );
    assert_eq!(require_admin(&ctx), None);
}

#[test]
fn identities_have_labels() {
    assert_eq!(ClientIdentity::Anonymous(ClientId { id: 42 }).label(), "anon:42");
    let id = ClientIdentity::ApiKey { key_id: "k".into(), name: "bob".into() };
    assert_eq!(id.label(), "apikey:bob");
    let id = ClientIdentity::Bearer { subject: "sub".into(), issuer: "iss".into() };
    assert_eq!(id.label(), "bearer:sub");
}

#[test]
fn keys_are_revoked_and_policies_replaced_in_a_running_server() {
    let mut state = SecurityState::new(false, ApiKeyStore::new());
    let roles = vec![Role::Custom("publisher".into())];
    let (key, secret) = state.api_key_store_mut().create_key("p".into(), roles);
    let shown = Credential::ApiKey(secret);
    let before = state.authenticate(&shown, ClientId::first());
    assert!(!before.has_permission(ResourceType::Contract, Permission::Publish));
    let mut policy = AccessPolicy::new();
    policy.register_custom_role(
        "publisher".into(),
        vec![(ResourceType::Contract, Permission::Publish)],
    );
    state.set_policy(policy);
    let after = state.authenticate(&shown, ClientId::first());
    assert!(after.has_permission(ResourceType::Contract, Permission::Publish));
    assert!(!after.has_permission(ResourceType::Contract, Permission::Read));
    assert!(state.has_permission(&before, ResourceType::Contract, Permission::Publish));
    assert!(!state.has_permission(&before, ResourceType::Contract, Permission::Read));
    assert!(state.api_key_store_mut().revoke(&key.key_id));
    assert!(state.authenticate(&shown, ClientId::first()).identity.is_anonymous());
    assert_eq!(state.api_key_store().list_keys().len(), 1);
}
