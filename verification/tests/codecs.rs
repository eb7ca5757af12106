use atproto_oauth::b64::append_b64;
use atproto_oauth::text::{append_pct, slice_has_prefix, split_on_comma, u64_to_dec, vec_subrange};

fn b64(input: &[u8]) -> String {
    let mut out: Vec<u8> = Vec::new();
    append_b64(&mut out, &input.to_vec());
    String::from_utf8(out).unwrap()
}

fn pct(input: &[u8]) -> String {
    let mut out: Vec<u8> = Vec::new();
    append_pct(&mut out, &input.to_vec());
    String::from_utf8(out).unwrap()
}

#[test]
fn base64url_known_vectors() {
    assert_eq!(b64(b""), "");
    assert_eq!(b64(b"f"), "Zg");
    assert_eq!(b64(b"fo"), "Zm8");
    assert_eq!(b64(b"foo"), "Zm9v");
    assert_eq!(b64(b"foob"), "Zm9vYg");
    assert_eq!(b64(b"fooba"), "Zm9vYmE");
    assert_eq!(b64(b"foobar"), "Zm9vYmFy");
    assert_eq!(b64(b"hello"), "aGVsbG8");
}

#[test]
fn base64url_uses_url_safe_alphabet() {
    // 0xfb 0xff encodes to bytes that need '-' and '_' in the url alphabet
    assert_eq!(b64(&[0xfb, 0xff]), "-_8");
}

#[test]
fn percent_encoding_known_vectors() {
    assert_eq!(pct(b"abcXYZ019.-_~"), "abcXYZ019.-_~");
    assert_eq!(pct(b"a b/c"), "a%20b%2Fc");
    assert_eq!(pct(b"https://x.test/cb"), "https%3A%2F%2Fx.test%2Fcb");
}

#[test]
fn decimal_formatting() {
    assert_eq!(u64_to_dec(0), b"0".to_vec());
    assert_eq!(u64_to_dec(7), b"7".to_vec());
    assert_eq!(u64_to_dec(42), b"42".to_vec());
    assert_eq!(u64_to_dec(12345), b"12345".to_vec());
}

#[test]
fn comma_splitting() {
    let segs = split_on_comma(&b"a,bb,,c".to_vec());
    let segs: Vec<&[u8]> = segs.iter().map(|v| v.as_slice()).collect();
    assert_eq!(segs, vec![&b"a"[..], &b"bb"[..], &b""[..], &b"c"[..]]);
    let one = split_on_comma(&b"plain".to_vec());
    assert_eq!(one.len(), 1);
    assert_eq!(one[0], b"plain".to_vec());
    let empty = split_on_comma(&b"".to_vec());
    assert_eq!(empty.len(), 1);
    assert_eq!(empty[0], b"".to_vec());
}

#[test]
fn prefixes_and_subranges() {
    assert!(slice_has_prefix(b"did=xyz", b"did="));
    assert!(!slice_has_prefix(b"di", b"did="));
    assert!(!slice_has_prefix(b"dud=xyz", b"did="));
    assert_eq!(vec_subrange(&b"abcdef".to_vec(), 2, 5), b"cde".to_vec());
}
