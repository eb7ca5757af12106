//! The key manager: loads signing keys from a comma-separated PEM list,
//! assigns position-based identifiers, and projects a public JWK set.
use vstd::prelude::*;
use vstd::string::StringSliceAdditionalSpecFns;
use crate::crypto::{p256_parse, parse_p256_pem, ascii_to_string};
use crate::text::{dec_of, split_commas, split_on_comma, chars_of_bytes, lemma_dec_of_ascii};
use crate::b64::{b64_of, append_b64, lemma_b64_ascii};

verus! {

/// A held private signing key with its stable identifier.
pub struct SigningKey {
    /// The ASCII bytes of the key identifier, `kid-` and the zero-padded
    /// position of the key in the configured list.
    pub kid: Vec<u8>,
    /// The private scalar, 32 bytes.
    pub d: Vec<u8>,
    /// The affine x coordinate of the public point, 32 bytes.
    pub x: Vec<u8>,
    /// The affine y coordinate of the public point, 32 bytes.
    pub y: Vec<u8>,
}

/// The identifier bytes of the key at position `i`: the bytes spell `kid-`
/// followed by the decimal position, zero-padded to two digits.
pub open spec fn kid_spec(i: nat) -> Seq<u8> {
    seq![107u8, 105u8, 100u8, 45u8] + (if i < 10 {
        seq![48u8]
    } else {
        Seq::<u8>::empty()
    }) + dec_of(i)
}

pub open spec fn key_wf(k: SigningKey) -> bool {
    &&& forall|j: int| 0 <= j < k.kid@.len() ==> k.kid@[j] < 128
    &&& k.d@.len() == 32
    &&& k.x@.len() == 32
    &&& k.y@.len() == 32
}

/// The keys that survive parsing, each paired with its position in the
/// original list.
pub open spec fn loaded_keys(segs: Seq<Seq<u8>>, base: nat) -> Seq<(nat, (Seq<u8>, Seq<u8>, Seq<u8>))>
    decreases segs.len(),
{
    if segs.len() == 0 {
        Seq::empty()
    } else {
        match p256_parse(segs[0]) {
            Some(k) => seq![(base, k)] + loaded_keys(segs.skip(1), base + 1),
            None => loaded_keys(segs.skip(1), base + 1),
        }
    }
}

/// Appending one segment appends at most one surviving key.
pub proof fn lemma_loaded_push(segs: Seq<Seq<u8>>, seg: Seq<u8>, base: nat)
    ensures
        loaded_keys(segs.push(seg), base) =~= loaded_keys(segs, base) + match p256_parse(seg) {
            Some(k) => seq![((base + segs.len()) as nat, k)],
            None => Seq::empty(),
        },
    decreases segs.len(),
{
    if segs.len() == 0 {
        assert(segs.push(seg)[0] == seg);
        assert(segs.push(seg).skip(1) =~= Seq::<Seq<u8>>::empty());
        assert(loaded_keys(segs, base) =~= Seq::<(nat, (Seq<u8>, Seq<u8>, Seq<u8>))>::empty());
        assert(loaded_keys(Seq::<Seq<u8>>::empty(), base + 1) =~= Seq::<(nat, (Seq<u8>, Seq<u8>, Seq<u8>))>::empty());
        match p256_parse(seg) {
            Some(k) => {
                assert(loaded_keys(segs.push(seg), base) =~= seq![(base, k)] + loaded_keys(
                    Seq::<Seq<u8>>::empty(),
                    base + 1,
                ));
                assert((base + segs.len()) as nat == base);
            },
            None => {
                assert(loaded_keys(segs.push(seg), base) =~= loaded_keys(
                    Seq::<Seq<u8>>::empty(),
                    base + 1,
                ));
            },
        }
    } else {
        assert(segs.push(seg)[0] == segs[0]);
        assert(segs.push(seg).skip(1) =~= segs.skip(1).push(seg));
        lemma_loaded_push(segs.skip(1), seg, base + 1);
        let tail = match p256_parse(seg) {
            Some(k) => seq![((base + segs.len()) as nat, k)],
            None => Seq::<(nat, (Seq<u8>, Seq<u8>, Seq<u8>))>::empty(),
        };
        assert(loaded_keys(segs.skip(1).push(seg), base + 1) =~= loaded_keys(segs.skip(1), base + 1)
            + tail);
        match p256_parse(segs[0]) {
            Some(k0) => {
                assert(loaded_keys(segs.push(seg), base) =~= seq![(base, k0)] + loaded_keys(
                    segs.skip(1).push(seg),
                    base + 1,
                ));
                assert(loaded_keys(segs, base) =~= seq![(base, k0)] + loaded_keys(
                    segs.skip(1),
                    base + 1,
                ));
            },
            None => {
                assert(loaded_keys(segs.push(seg), base) =~= loaded_keys(
                    segs.skip(1).push(seg),
                    base + 1,
                ));
                assert(loaded_keys(segs, base) =~= loaded_keys(segs.skip(1), base + 1));
            },
        }
    }
}

/// Whether the key vector matches the surviving keys of the segments.
pub open spec fn keys_match(keys: Seq<SigningKey>, loaded: Seq<(nat, (Seq<u8>, Seq<u8>, Seq<u8>))>) -> bool {
    &&& keys.len() == loaded.len()
    &&& forall|j: int|
        0 <= j < keys.len() ==> (#[trigger] keys[j]).kid@ == kid_spec(loaded[j].0)
            && keys[j].d@ == loaded[j].1.0 && keys[j].x@ == loaded[j].1.1 && keys[j].y@
            == loaded[j].1.2
}

/// The set of signing keys the client holds.
pub struct KeySet {
    pub keys: Vec<SigningKey>,
}

impl KeySet {
    pub open spec fn wf(&self) -> bool {
        forall|j: int| 0 <= j < self.keys@.len() ==> key_wf(#[trigger] self.keys@[j])
    }

    /// How many keys were loaded; callers should log a low count.
    pub fn len(&self) -> (r: usize)
        ensures
            r == self.keys@.len(),
    {
        self.keys.len()
    }
}

fn kid_bytes(i: usize) -> (r: Vec<u8>)
    ensures
        r@ == kid_spec(i as nat),
        forall|j: int| 0 <= j < r@.len() ==> r@[j] < 128,
{
    let mut v: Vec<u8> = Vec::new();
    v.push(107);  // k
    v.push(105);  // i
    v.push(100);  // d
    v.push(45);  // -
    if i < 10 {
        v.push(48);  // 0
    }
    let d = crate::text::u64_to_dec(i as u64);
    v.extend_from_slice(d.as_slice());
    proof {
        lemma_dec_of_ascii(i as nat);
        assert(v@ =~= kid_spec(i as nat));
    }
    v
}

/// Load signing keys from an optional comma-separated PEM list. Entries that
/// do not parse as P-256 private keys are dropped; each surviving key keeps
/// the identifier of its position in the original list.
pub fn load_keys(raw: Option<&str>) -> (r: KeySet)
    ensures
        r.wf(),
        match raw {
            None => r.keys@.len() == 0,
            Some(s) => keys_match(r.keys@, loaded_keys(split_commas(s.spec_bytes()), 0)),
        },
{
    let text = match raw {
        None => {
            return KeySet { keys: Vec::new() };
        },
        Some(t) => t,
    };
    let bytes = text.as_bytes_vec();
    let segs = split_on_comma(&bytes);
    let ghost all = split_commas(text.spec_bytes());
    let mut keys: Vec<SigningKey> = Vec::new();
    let n = segs.len();
    let mut i: usize = 0;
    while i < n
        invariant
            n == segs@.len(),
            i <= n,
            all == split_commas(text.spec_bytes()),
            all.len() == n,
            forall|m: int| 0 <= m < n ==> (#[trigger] segs@[m])@ == all[m],
            keys_match(keys@, loaded_keys(all.take(i as int), 0)),
            forall|j: int| 0 <= j < keys@.len() ==> key_wf(#[trigger] keys@[j]),
        decreases n - i,
    {
        let parsed = parse_p256_pem(&segs[i]);
        proof {
            assert(all.take(i as int).push(all[i as int]) =~= all.take(i as int + 1));
            lemma_loaded_push(all.take(i as int), all[i as int], 0);
        }
        match parsed {
            Some(k) => {
                let kid = kid_bytes(i);
                keys.push(SigningKey { kid, d: k.d, x: k.x, y: k.y });
            },
            None => {},
        }
        i = i + 1;
    }
    proof {
        assert(all.take(n as int) =~= all);
    }
    KeySet { keys }
}

/// One public key of the JWK set: identifier and public coordinates only;
/// no private material is carried or reachable from this type.
pub struct PublicJwk {
    /// The key identifier.
    pub kid: String,
    /// The base64url affine x coordinate.
    pub x: String,
    /// The base64url affine y coordinate.
    pub y: String,
}

/// The published JWK set.
pub struct JwkSet {
    pub keys: Vec<PublicJwk>,
}

/// Whether a JWK entry is exactly the public projection of a signing key:
/// its identifier and its two public coordinates, base64url; in particular
/// nothing of the private scalar.
pub open spec fn jwk_matches(j: PublicJwk, k: SigningKey) -> bool {
    &&& j.kid@ == chars_of_bytes(k.kid@)
    &&& j.x@ == chars_of_bytes(b64_of(k.x@))
    &&& j.y@ == chars_of_bytes(b64_of(k.y@))
}

/// The public JWK set of a key set: one entry per held key, public
/// components only, safe for unauthenticated publication.
pub fn public_jwk_set(ks: &KeySet) -> (r: JwkSet)
    requires
        ks.wf(),
    ensures
        r.keys@.len() == ks.keys@.len(),
        forall|j: int| 0 <= j < r.keys@.len() ==> jwk_matches(#[trigger] r.keys@[j], ks.keys@[j]),
{
    let n = ks.keys.len();
    let mut keys: Vec<PublicJwk> = Vec::new();
    let mut i: usize = 0;
    while i < n
        invariant
            ks.wf(),
            n == ks.keys@.len(),
            i <= n,
            keys@.len() == i,
            forall|j: int| 0 <= j < i ==> jwk_matches(#[trigger] keys@[j], ks.keys@[j]),
        decreases n - i,
    {
        let k = &ks.keys[i];
        let kid = ascii_to_string(&k.kid);
        let mut xb: Vec<u8> = Vec::new();
        append_b64(&mut xb, &k.x);
        let mut yb: Vec<u8> = Vec::new();
        append_b64(&mut yb, &k.y);
        proof {
            lemma_b64_ascii(k.x@);
            lemma_b64_ascii(k.y@);
            assert(xb@ =~= b64_of(k.x@));
            assert(yb@ =~= b64_of(k.y@));
        }
        let x = ascii_to_string(&xb);
        let y = ascii_to_string(&yb);
        keys.push(PublicJwk { kid, x, y });
        i = i + 1;
    }
    JwkSet { keys }
}

} // verus!
