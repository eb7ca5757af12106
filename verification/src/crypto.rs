//! Trusted wrappers around the cryptographic outside crates: SHA-256,
//! P-256 key parsing, deterministic ECDSA signing, and randomness.
use vstd::prelude::*;
use p256::ecdsa::signature::Signer;
use p256::elliptic_curve::sec1::ToEncodedPoint;
use p256::pkcs8::DecodePrivateKey;
use rand::Rng;

verus! {

/// The SHA-256 digest of a byte sequence; a function of the bytes alone.
pub uninterp spec fn sha256_of(msg: Seq<u8>) -> Seq<u8>;

/// Relies on sha2::Sha256: the digest is 32 bytes and depends on the
/// message alone.
#[verifier::external_body]
pub fn sha256(msg: &Vec<u8>) -> (r: Vec<u8>)
    ensures
        r@ == sha256_of(msg@),
        r@.len() == 32,
{
    let digest = <sha2::Sha256 as sha2::Digest>::digest(msg.as_slice());
    digest.as_slice().to_vec()
}

/// The private scalar and the two public coordinates of a parsed P-256 key,
/// or nothing where the text is not a valid PKCS#8 PEM private key.
pub uninterp spec fn p256_parse(pem: Seq<u8>) -> Option<(Seq<u8>, Seq<u8>, Seq<u8>)>;

/// The scalar and affine coordinates of one elliptic-curve signing key.
pub struct EcKeyMaterial {
    /// The private scalar, 32 bytes.
    pub d: Vec<u8>,
    /// The affine x coordinate of the public point, 32 bytes.
    pub x: Vec<u8>,
    /// The affine y coordinate of the public point, 32 bytes.
    pub y: Vec<u8>,
}

/// Relies on p256::SecretKey::from_pkcs8_pem and
/// elliptic_curve::PublicKey::to_encoded_point: parsing is a function of the
/// text alone, the scalar and both coordinates are 32-byte field elements.
#[verifier::external_body]
pub fn parse_p256_pem(pem: &Vec<u8>) -> (r: Option<EcKeyMaterial>)
    ensures
        match r {
            Some(k) => p256_parse(pem@) == Some((k.d@, k.x@, k.y@)) && k.d@.len() == 32
                && k.x@.len() == 32 && k.y@.len() == 32,
            None => p256_parse(pem@) is None,
        },
{
    let text = core::str::from_utf8(pem.as_slice()).ok()?;
    let sk = p256::SecretKey::from_pkcs8_pem(text).ok()?;
    let point = sk.public_key().to_encoded_point(false);
    match (point.x(), point.y()) {
        (Some(x), Some(y)) => Some(EcKeyMaterial {
            d: sk.to_bytes().to_vec(),
            x: x.to_vec(),
            y: y.to_vec(),
        }),
        _ => None,
    }
}

/// The ES256 signature that deterministic ECDSA (RFC 6979) produces for a
/// private scalar and a message; a function of the two alone.
pub uninterp spec fn es256_sig_of(d: Seq<u8>, msg: Seq<u8>) -> Seq<u8>;

/// Relies on p256::ecdsa::SigningKey::sign, which signs with a deterministic
/// RFC 6979 nonce: the 64-byte signature depends on the scalar and the
/// message alone. Returns nothing where the scalar is not a valid key.
#[verifier::external_body]
pub fn es256_sign(d: &Vec<u8>, msg: &Vec<u8>) -> (r: Option<Vec<u8>>)
    ensures
        match r {
            Some(sig) => sig@ == es256_sig_of(d@, msg@) && sig@.len() == 64,
            None => true,
        },
{
    let key = match p256::ecdsa::SigningKey::from_slice(d.as_slice()) {
        Ok(k) => k,
        Err(_) => return None,
    };
    let sig: p256::ecdsa::Signature = key.sign(msg.as_slice());
    Some(sig.to_bytes().to_vec())
}

/// Relies on the thread-local generator of rand; nothing is promised of the
/// bytes beyond their count.
#[verifier::external_body]
pub fn random_bytes(n: usize) -> (r: Vec<u8>)
    ensures
        r@.len() == n,
{
    let mut buf = vec![0u8; n];
    rand::rng().fill_bytes(buf.as_mut_slice());
    buf
}

/// Relies on std::time::SystemTime::now: seconds since the Unix epoch,
/// zero where the clock reads before it.
#[verifier::external_body]
pub fn now_secs() -> u64 {
    match std::time::SystemTime::now().duration_since(std::time::UNIX_EPOCH) {
        Ok(d) => d.as_secs(),
        Err(_) => 0,
    }
}

/// Relies on String::from_utf8: ASCII bytes are valid UTF-8 and decode to
/// one character per byte.
#[verifier::external_body]
pub fn ascii_to_string(v: &Vec<u8>) -> (r: String)
    requires
        forall|i: int| 0 <= i < v@.len() ==> v@[i] < 128,
    ensures
        r@ == crate::text::chars_of_bytes(v@),
{
    match String::from_utf8(v.clone()) {
        Ok(s) => s,
        Err(_) => String::new(),
    }
}

} // verus!
