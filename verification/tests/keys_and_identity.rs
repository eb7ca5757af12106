use atproto_oauth::keys::load_keys;
use atproto_oauth::resolver::{
    did_from_txt_records, doc_handle, is_valid_did, plc_directory_url, txt_query_for_handle,
    validate_resolution, well_known_url_for_handle, DidDocument,
};
use p256::elliptic_curve::sec1::ToEncodedPoint;
use p256::pkcs8::EncodePrivateKey;

// A deterministic test key: the P-256 scalar with every byte `fill`. The
// keys are derived here at run time so no key material sits in the sources.
fn test_key(fill: u8) -> p256::SecretKey {
    p256::SecretKey::from_slice(&[fill; 32]).unwrap()
}

fn test_pem(fill: u8) -> String {
    test_key(fill).to_pkcs8_pem(p256::pkcs8::LineEnding::LF).unwrap().to_string()
}

#[test]
fn load_drops_garbage_and_keeps_positional_kids() {
    let raw = format!("{},garbage,{}", test_pem(1), test_pem(2));
    let ks = load_keys(Some(&raw));
    assert_eq!(ks.len(), 2);
    assert_eq!(ks.keys[0].kid, b"kid-00".to_vec());
    assert_eq!(ks.keys[1].kid, b"kid-02".to_vec());
}

#[test]
fn load_none_and_empty() {
    assert_eq!(load_keys(None).len(), 0);
    assert_eq!(load_keys(Some("")).len(), 0);
    assert_eq!(load_keys(Some("garbage,also garbage")).len(), 0);
}

#[test]
fn loaded_key_has_expected_material() {
    let pem = test_pem(1);
    let ks = load_keys(Some(&pem));
    assert_eq!(ks.len(), 1);
    let sk = test_key(1);
    let point = sk.public_key().to_encoded_point(false);
    assert_eq!(ks.keys[0].d, [1u8; 32].to_vec());
    assert_eq!(ks.keys[0].x, point.x().unwrap().to_vec());
    assert_eq!(ks.keys[0].y, point.y().unwrap().to_vec());
}

fn b64_decode(s: &str) -> Vec<u8> {
    let alphabet: Vec<u8> =
        (b'A'..=b'Z').chain(b'a'..=b'z').chain(b'0'..=b'9').chain([b'-', b'_']).collect();
    let mut bits: Vec<u8> = Vec::new();
    for c in s.bytes() {
        let v = alphabet.iter().position(|&a| a == c).unwrap() as u8;
        for k in (0..6).rev() {
            bits.push((v >> k) & 1);
        }
    }
    bits.chunks(8).filter(|ch| ch.len() == 8).map(|ch| ch.iter().fold(0, |a, b| a * 2 + b)).collect()
}

#[test]
fn jwks_exposes_only_public_components() {
    let pem = test_pem(1);
    let ks = load_keys(Some(&pem));
    let jwks = atproto_oauth::keys::public_jwk_set(&ks);
    assert_eq!(jwks.keys.len(), 1);
    let entry = &jwks.keys[0];
    assert_eq!(entry.kid, "kid-00");
    let point = test_key(1).public_key().to_encoded_point(false);
    assert_eq!(b64_decode(&entry.x), point.x().unwrap().to_vec());
    assert_eq!(b64_decode(&entry.y), point.y().unwrap().to_vec());
    // the entry carries the public coordinates and never the private scalar
    assert_ne!(b64_decode(&entry.x), [1u8; 32].to_vec());
    assert_ne!(b64_decode(&entry.y), [1u8; 32].to_vec());
}

#[test]
fn did_validation() {
    assert!(is_valid_did("did:plc:abcd1234"));
    assert!(is_valid_did("did:web:example.com"));
    assert!(!is_valid_did("did:plc:"));
    assert!(!is_valid_did("did:key:z6Mk"));
    assert!(!is_valid_did("alice.example.com"));
}

#[test]
fn handle_queries() {
    assert_eq!(txt_query_for_handle("alice.example.com"), "_atproto.alice.example.com");
    assert_eq!(
        well_known_url_for_handle("alice.example.com"),
        "https://alice.example.com/.well-known/atproto-did"
    );
    assert_eq!(
        plc_directory_url("did:plc:abcd1234"),
        "https://plc.directory/did:plc:abcd1234"
    );
}

#[test]
fn txt_records_yield_first_valid_did() {
    let records = vec![
        "v=spf1 -all".to_string(),
        "did=not-a-did".to_string(),
        "did=did:plc:abcd1234".to_string(),
        "did=did:plc:other".to_string(),
    ];
    assert_eq!(did_from_txt_records(&records), Some("did:plc:abcd1234".to_string()));
    let none = vec!["v=spf1 -all".to_string()];
    assert_eq!(did_from_txt_records(&none), None);
}

fn doc(id: &str, aka: &[&str]) -> DidDocument {
    DidDocument {
        id: id.to_string(),
        also_known_as: aka.iter().map(|s| s.to_string()).collect(),
        pds_endpoint: Some("https://pds.example.com".to_string()),
    }
}

#[test]
fn validation_accepts_matching_document() {
    let d = doc("did:plc:abcd1234", &["at://alice.example.com"]);
    let id = validate_resolution(
        &d,
        &"did:plc:abcd1234".to_string(),
        &"alice.example.com".to_string(),
    )
    .unwrap();
    assert_eq!(id.did, "did:plc:abcd1234");
    assert_eq!(id.handle, "alice.example.com");
}

#[test]
fn validation_rejects_spoofed_handle() {
    // the document does not claim the handle that led to it
    let d = doc("did:plc:abcd1234", &["at://mallory.example.com"]);
    let r = validate_resolution(
        &d,
        &"did:plc:abcd1234".to_string(),
        &"alice.example.com".to_string(),
    );
    assert_eq!(r.err(), Some(atproto_oauth::FlowError::Resolution));
    // the document is for another DID
    let d2 = doc("did:plc:other", &["at://alice.example.com"]);
    let r2 = validate_resolution(
        &d2,
        &"did:plc:abcd1234".to_string(),
        &"alice.example.com".to_string(),
    );
    assert_eq!(r2.err(), Some(atproto_oauth::FlowError::Resolution));
}

#[test]
fn round_trip_handle_did_handle() {
    // handle -> DID: the document claims the handle, so validation accepts
    let d = doc("did:plc:abcd1234", &["at://alice.example.com"]);
    let id = validate_resolution(
        &d,
        &"did:plc:abcd1234".to_string(),
        &"alice.example.com".to_string(),
    )
    .unwrap();
    // DID -> handle through the same document yields the same handle
    assert_eq!(doc_handle(&d), Some(id.handle));
    // a document that claims nothing resolves to no handle rather than an
    // inconsistent one
    let bare = doc("did:plc:abcd1234", &["https://not-an-at-uri.example.com"]);
    assert_eq!(doc_handle(&bare), None);
}
