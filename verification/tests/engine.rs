use atproto_oauth::flow::{
    create_oauth_client, AuthServer, CallbackParams, OAuthFlow, TokenResponse,
};
use atproto_oauth::keys::load_keys;
use atproto_oauth::metadata::build_client_metadata;
use atproto_oauth::resolver::Identity;
use atproto_oauth::FlowError;
use sha2::Digest;
use p256::ecdsa::signature::Verifier;
use p256::pkcs8::EncodePrivateKey;

// A deterministic test key: the P-256 scalar with every byte one. The key
// is derived here at run time so no key material sits in the sources.
fn test_key() -> p256::SecretKey {
    p256::SecretKey::from_slice(&[1u8; 32]).unwrap()
}

fn test_pem() -> String {
    test_key().to_pkcs8_pem(p256::pkcs8::LineEnding::LF).unwrap().to_string()
}

fn server() -> AuthServer {
    AuthServer {
        issuer: "https://auth.example.com".to_string(),
        authorization_endpoint: "https://auth.example.com/authorize".to_string(),
        token_endpoint: "https://auth.example.com/token".to_string(),
        supports_authorization_code: true,
    }
}

fn engine() -> OAuthFlow {
    create_oauth_client("https://app.example.com", Some(&test_pem()))
}

#[test]
fn metadata_document_fields() {
    let m = build_client_metadata("https://app.example.com");
    assert_eq!(m.client_id, "https://app.example.com/oauth/client-metadata.json");
    assert_eq!(m.client_uri, "https://app.example.com");
    assert_eq!(m.redirect_uri, "https://app.example.com/oauth/callback");
    assert_eq!(m.jwks_uri, "https://app.example.com/oauth/jwks.json");
    assert_eq!(m.scope, "atproto transition:generic");
}

#[test]
fn authorize_url_carries_client_id_redirect_and_state() {
    let mut e = engine();
    let url = e
        .authorize(&server(), "statetok123".to_string(), "pkce-verifier-value".to_string())
        .unwrap();
    assert!(url.starts_with("https://auth.example.com/authorize?client_id="));
    assert!(url.contains(
        "client_id=https%3A%2F%2Fapp.example.com%2Foauth%2Fclient-metadata.json"
    ));
    assert!(url.contains("&redirect_uri=https%3A%2F%2Fapp.example.com%2Foauth%2Fcallback"));
    assert!(url.contains("&state=statetok123"));
    assert!(url.contains("&response_type=code"));
    assert!(url.contains("&scope=atproto%20transition%3Ageneric"));
    assert!(url.contains("&code_challenge_method=S256"));
}

#[test]
fn authorize_challenge_is_sha256_of_verifier() {
    let mut e = engine();
    let url = e
        .authorize(&server(), "statetok123".to_string(), "pkce-verifier-value".to_string())
        .unwrap();
    let digest = sha2::Sha256::digest(b"pkce-verifier-value");
    let mut expected: Vec<u8> = Vec::new();
    atproto_oauth::b64::append_b64(&mut expected, &digest.to_vec());
    let expected = String::from_utf8(expected).unwrap();
    assert!(url.contains(&format!("&code_challenge={expected}&")));
}

#[test]
fn authorize_fails_fast_without_keys() {
    let mut e = create_oauth_client("https://app.example.com", None);
    let r = e.authorize(&server(), "tok".to_string(), "ver".to_string());
    assert_eq!(r.unwrap_err(), FlowError::Authorization);
}

#[test]
fn authorize_fails_without_code_grant() {
    let mut e = engine();
    let mut s = server();
    s.supports_authorization_code = false;
    let r = e.authorize(&s, "tok".to_string(), "ver".to_string());
    assert_eq!(r.unwrap_err(), FlowError::Authorization);
}

#[test]
fn start_authorize_generates_fresh_tokens() {
    let mut e = engine();
    let url1 = e.start_authorize(&server()).unwrap();
    let url2 = e.start_authorize(&server()).unwrap();
    assert_ne!(url1, url2);
}

fn good_params(state: &str) -> CallbackParams {
    CallbackParams {
        code: "authcode".to_string(),
        state: state.to_string(),
        iss: Some("https://auth.example.com".to_string()),
    }
}

#[test]
fn callback_with_unknown_state_is_invalid_state() {
    let mut e = engine();
    let r = e.callback_begin(&good_params("never-issued"));
    assert_eq!(r.err(), Some(FlowError::InvalidState));
}

#[test]
fn callback_state_is_single_use() {
    let mut e = engine();
    e.authorize(&server(), "tok1".to_string(), "ver1".to_string()).unwrap();
    let first = e.callback_begin(&good_params("tok1"));
    assert!(first.is_ok());
    let second = e.callback_begin(&good_params("tok1"));
    assert_eq!(second.err(), Some(FlowError::InvalidState));
}

#[test]
fn callback_with_mismatched_issuer_fails_without_exchange() {
    let mut e = engine();
    e.authorize(&server(), "tok1".to_string(), "ver1".to_string()).unwrap();
    let mut p = good_params("tok1");
    p.iss = Some("https://evil.example.com".to_string());
    let r = e.callback_begin(&p);
    // no token request was produced: the mismatch fails before any exchange
    assert_eq!(r.err(), Some(FlowError::Callback));
    // and the token was still consumed
    let again = e.callback_begin(&good_params("tok1"));
    assert_eq!(again.err(), Some(FlowError::InvalidState));
}

#[test]
fn callback_with_absent_issuer_fails() {
    let mut e = engine();
    e.authorize(&server(), "tok1".to_string(), "ver1".to_string()).unwrap();
    let mut p = good_params("tok1");
    p.iss = None;
    assert_eq!(e.callback_begin(&p).err(), Some(FlowError::Callback));
}

#[test]
fn token_request_body_is_well_formed() {
    let mut e = engine();
    e.authorize(&server(), "tok1".to_string(), "ver1".to_string()).unwrap();
    let pe = e.callback_begin(&good_params("tok1")).unwrap();
    assert_eq!(pe.request.url, "https://auth.example.com/token");
    let body = &pe.request.body;
    assert!(body.starts_with("grant_type=authorization_code&code=authcode"));
    assert!(body.contains("&code_verifier=ver1"));
    assert!(body.contains(
        "&client_id=https%3A%2F%2Fapp.example.com%2Foauth%2Fclient-metadata.json"
    ));
    let assertion = body.split("&client_assertion=").nth(1).unwrap();
    let mut parts = assertion.split('.');
    let h64 = parts.next().unwrap();
    let p64 = parts.next().unwrap();
    let s64 = parts.next().unwrap();
    assert!(parts.next().is_none());
    let header = String::from_utf8(b64_decode(h64)).unwrap();
    assert_eq!(header, "{\"alg\":\"ES256\",\"kid\":\"kid-00\"}");
    let payload = String::from_utf8(b64_decode(p64)).unwrap();
    assert!(payload.contains("\"iss\":\"https://app.example.com/oauth/client-metadata.json\""));
    assert!(payload.contains("\"aud\":\"https://auth.example.com/token\""));
    assert!(payload.contains("\"exp\":"));
    assert_eq!(b64_decode(s64).len(), 64);
}

#[test]
fn token_request_assertion_signature_verifies() {
    let mut e = engine();
    e.authorize(&server(), "tok1".to_string(), "ver1".to_string()).unwrap();
    let pe = e.callback_begin(&good_params("tok1")).unwrap();
    let assertion = pe.request.body.split("&client_assertion=").nth(1).unwrap();
    let dot = assertion.rfind('.').unwrap();
    let (signing_input, s64) = (&assertion[..dot], &assertion[dot + 1..]);
    let vk = p256::ecdsa::VerifyingKey::from(&p256::ecdsa::SigningKey::from(&test_key()));
    let sig = p256::ecdsa::Signature::from_slice(&b64_decode(s64)).unwrap();
    assert!(vk.verify(signing_input.as_bytes(), &sig).is_ok());
}

fn b64_decode(s: &str) -> Vec<u8> {
    let alphabet: Vec<u8> =
        (b'A'..=b'Z').chain(b'a'..=b'z').chain(b'0'..=b'9').chain([b'-', b'_']).collect();
    let mut bits: Vec<u8> = Vec::new();
    for c in s.bytes() {
        let v = alphabet.iter().position(|&a| a == c).unwrap() as u8;
        for k in (0..6).rev() {
            bits.push((v >> k) & 1);
        }
    }
    bits.chunks(8).filter(|ch| ch.len() == 8).map(|ch| ch.iter().fold(0, |a, b| a * 2 + b)).collect()
}

fn response(sub: &str) -> TokenResponse {
    TokenResponse {
        access_token: "at-123".to_string(),
        refresh_token: Some("rt-456".to_string()),
        sub: sub.to_string(),
    }
}

#[test]
fn rejected_exchange_is_callback_error() {
    let mut e = engine();
    e.authorize(&server(), "tok1".to_string(), "ver1".to_string()).unwrap();
    let pe = e.callback_begin(&good_params("tok1")).unwrap();
    let r = e.callback_exchange(pe, None);
    assert_eq!(r.err(), Some(FlowError::Callback));
}

#[test]
fn exchange_with_invalid_subject_is_identity_error() {
    let mut e = engine();
    e.authorize(&server(), "tok1".to_string(), "ver1".to_string()).unwrap();
    let pe = e.callback_begin(&good_params("tok1")).unwrap();
    let r = e.callback_exchange(pe, Some(response("not-a-did")));
    assert_eq!(r.err(), Some(FlowError::Identity));
}

#[test]
fn failed_identity_resolution_persists_no_session() {
    let mut e = engine();
    e.authorize(&server(), "tok1".to_string(), "ver1".to_string()).unwrap();
    let pe = e.callback_begin(&good_params("tok1")).unwrap();
    let pi = e.callback_exchange(pe, Some(response("did:plc:abcd1234"))).unwrap();
    let r = e.callback_complete(pi, None);
    assert_eq!(r.err(), Some(FlowError::Identity));
    assert!(e.get_session(&"did:plc:abcd1234".to_string()).is_none());
}

#[test]
fn mismatched_identity_resolution_persists_no_session() {
    let mut e = engine();
    e.authorize(&server(), "tok1".to_string(), "ver1".to_string()).unwrap();
    let pe = e.callback_begin(&good_params("tok1")).unwrap();
    let pi = e.callback_exchange(pe, Some(response("did:plc:abcd1234"))).unwrap();
    let other = Identity {
        did: "did:plc:other".to_string(),
        handle: "alice.example.com".to_string(),
    };
    let r = e.callback_complete(pi, Some(other));
    assert_eq!(r.err(), Some(FlowError::Identity));
    assert!(e.get_session(&"did:plc:abcd1234".to_string()).is_none());
}

#[test]
fn successful_callback_persists_session_and_returns_identity() {
    let mut e = engine();
    e.authorize(&server(), "tok1".to_string(), "ver1".to_string()).unwrap();
    let pe = e.callback_begin(&good_params("tok1")).unwrap();
    let pi = e.callback_exchange(pe, Some(response("did:plc:abcd1234"))).unwrap();
    let id = Identity {
        did: "did:plc:abcd1234".to_string(),
        handle: "alice.example.com".to_string(),
    };
    let (session, identity) = e.callback_complete(pi, Some(id)).unwrap();
    assert_eq!(session.did, "did:plc:abcd1234");
    assert_eq!(session.access_token, "at-123");
    assert_eq!(session.refresh_token, Some("rt-456".to_string()));
    assert_eq!(session.issuer, "https://auth.example.com");
    assert_eq!(identity.handle, "alice.example.com");
    let stored = e.get_session(&"did:plc:abcd1234".to_string()).unwrap();
    assert_eq!(stored.access_token, "at-123");
}

#[test]
fn jwks_document_lists_loaded_keys() {
    let e = engine();
    let jwks = e.jwks_document();
    assert_eq!(jwks.keys.len(), 1);
    assert_eq!(jwks.keys[0].kid, "kid-00");
    // 32-byte coordinates encode to 43 base64url characters
    assert_eq!(jwks.keys[0].x.len(), 43);
    assert_eq!(jwks.keys[0].y.len(), 43);
}

#[test]
fn error_labels() {
    assert_eq!(FlowError::InvalidState.label(), "invalid state error");
    assert_eq!(FlowError::Identity.label(), "identity error");
}

#[test]
fn key_manager_len_reports_degraded_state() {
    let ks = load_keys(Some("garbage"));
    assert_eq!(ks.len(), 0);
    let e = OAuthFlow::new(build_client_metadata("https://app.example.com"), ks);
    let jwks = e.jwks_document();
    assert!(jwks.keys.is_empty());
}
