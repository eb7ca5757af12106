//! Base64url encoding without padding, used for PKCE challenges,
//! state tokens, JWK coordinates and JWT segments.
use vstd::prelude::*;

verus! {

/// The base64url alphabet, one ASCII byte per 6-bit value.
pub open spec fn b64_byte(v: int) -> u8 {
    if v < 26 {
        (65 + v) as u8  // 'A'..'Z'
    } else if v < 52 {
        (97 + v - 26) as u8  // 'a'..'z'
    } else if v < 62 {
        (48 + v - 52) as u8  // '0'..'9'
    } else if v == 62 {
        45u8  // '-'
    } else {
        95u8  // '_'
    }
}

/// The base64url encoding of a byte sequence, no padding.
pub open spec fn b64_of(s: Seq<u8>) -> Seq<u8>
    decreases s.len(),
{
    if s.len() == 0 {
        Seq::empty()
    } else if s.len() == 1 {
        let b0 = s[0] as int;
        seq![b64_byte(b0 / 4), b64_byte((b0 % 4) * 16)]
    } else if s.len() == 2 {
        let b0 = s[0] as int;
        let b1 = s[1] as int;
        seq![b64_byte(b0 / 4), b64_byte((b0 % 4) * 16 + b1 / 16), b64_byte((b1 % 16) * 4)]
    } else {
        let b0 = s[0] as int;
        let b1 = s[1] as int;
        let b2 = s[2] as int;
        seq![
            b64_byte(b0 / 4),
            b64_byte((b0 % 4) * 16 + b1 / 16),
            b64_byte((b1 % 16) * 4 + b2 / 64),
            b64_byte(b2 % 64),
        ] + b64_of(s.skip(3))
    }
}

/// Encoding splits over a seam at a multiple of three bytes.
pub proof fn lemma_b64_align(a: Seq<u8>, t: Seq<u8>)
    requires
        a.len() % 3 == 0,
    ensures
        b64_of(a + t) == b64_of(a) + b64_of(t),
    decreases a.len(),
{
    if a.len() == 0 {
        assert(a + t =~= t);
        assert(b64_of(a) =~= Seq::<u8>::empty());
        assert(b64_of(a) + b64_of(t) =~= b64_of(t));
    } else {
        let c = a + t;
        assert(a.len() >= 3);
        assert(c[0] == a[0] && c[1] == a[1] && c[2] == a[2]);
        assert(c.skip(3) =~= a.skip(3) + t);
        assert(a.skip(3).len() % 3 == 0);
        lemma_b64_align(a.skip(3), t);
        assert(b64_of(c) == seq![
            b64_byte(c[0] as int / 4),
            b64_byte((c[0] as int % 4) * 16 + c[1] as int / 16),
            b64_byte((c[1] as int % 16) * 4 + c[2] as int / 64),
            b64_byte(c[2] as int % 64),
        ] + b64_of(c.skip(3)));
        assert(b64_of(a) == seq![
            b64_byte(a[0] as int / 4),
            b64_byte((a[0] as int % 4) * 16 + a[1] as int / 16),
            b64_byte((a[1] as int % 16) * 4 + a[2] as int / 64),
            b64_byte(a[2] as int % 64),
        ] + b64_of(a.skip(3)));
        assert(b64_of(c) =~= b64_of(a) + b64_of(t));
    }
}

fn b64_byte_exec(v: u8) -> (r: u8)
    requires
        v < 64,
    ensures
        r == b64_byte(v as int),
{
    if v < 26 {
        65 + v
    } else if v < 52 {
        97 + v - 26
    } else if v < 62 {
        48 + v - 52
    } else if v == 62 {
        45
    } else {
        95
    }
}

/// Append the base64url encoding of `src` to `out`.
pub fn append_b64(out: &mut Vec<u8>, src: &Vec<u8>)
    ensures
        final(out)@ == old(out)@ + b64_of(src@),
{
    let n = src.len();
    let mut i: usize = 0;
    while n - i >= 3
        invariant
            n == src@.len(),
            i <= n,
            i % 3 == 0,
            out@ == old(out)@ + b64_of(src@.take(i as int)),
        decreases n - i,
    {
        let b0 = src[i];
        let b1 = src[i + 1];
        let b2 = src[i + 2];
        out.push(b64_byte_exec(b0 / 4));
        out.push(b64_byte_exec((b0 % 4) * 16 + b1 / 16));
        out.push(b64_byte_exec((b1 % 16) * 4 + b2 / 64));
        out.push(b64_byte_exec(b2 % 64));
        proof {
            let pre = src@.take(i as int);
            let blk = src@.subrange(i as int, i as int + 3);
            assert(src@.take(i as int + 3) =~= pre + blk);
            lemma_b64_align(pre, blk);
            assert(blk.len() == 3);
            assert(blk[0] == src@[i as int]);
            assert(blk[1] == src@[i as int + 1]);
            assert(blk[2] == src@[i as int + 2]);
            assert(blk.skip(3) =~= Seq::<u8>::empty());
            assert(b64_of(blk.skip(3)) =~= Seq::<u8>::empty());
            assert(b64_of(blk) =~= seq![
                b64_byte(blk[0] as int / 4),
                b64_byte((blk[0] as int % 4) * 16 + blk[1] as int / 16),
                b64_byte((blk[1] as int % 16) * 4 + blk[2] as int / 64),
                b64_byte(blk[2] as int % 64),
            ]);
            assert(out@ =~= old(out)@ + b64_of(src@.take(i as int + 3)));
        }
        i = i + 3;
    }
    proof {
        let pre = src@.take(i as int);
        let rest = src@.skip(i as int);
        assert(src@ =~= pre + rest);
        lemma_b64_align(pre, rest);
    }
    if n - i == 1 {
        let b0 = src[i];
        out.push(b64_byte_exec(b0 / 4));
        out.push(b64_byte_exec((b0 % 4) * 16));
        proof {
            let rest = src@.skip(i as int);
            assert(rest.len() == 1);
            assert(rest[0] == src@[i as int]);
            assert(final(out)@ =~= old(out)@ + b64_of(src@));
        }
    } else if n - i == 2 {
        let b0 = src[i];
        let b1 = src[i + 1];
        out.push(b64_byte_exec(b0 / 4));
        out.push(b64_byte_exec((b0 % 4) * 16 + b1 / 16));
        out.push(b64_byte_exec((b1 % 16) * 4));
        proof {
            let rest = src@.skip(i as int);
            assert(rest.len() == 2);
            assert(rest[0] == src@[i as int]);
            assert(rest[1] == src@[i as int + 1]);
            assert(final(out)@ =~= old(out)@ + b64_of(src@));
        }
    } else {
        proof {
            let rest = src@.skip(i as int);
            assert(rest.len() == 0);
            assert(b64_of(rest) =~= Seq::<u8>::empty());
            assert(final(out)@ =~= old(out)@ + b64_of(src@));
        }
    }
}

/// Every encoded byte lies in the base64url alphabet, hence is ASCII.
pub proof fn lemma_b64_ascii(s: Seq<u8>)
    ensures
        forall|i: int| 0 <= i < b64_of(s).len() ==> #[trigger] b64_of(s)[i] < 128,
    decreases s.len(),
{
    if s.len() >= 3 {
        lemma_b64_ascii(s.skip(3));
        assert forall|i: int| 0 <= i < b64_of(s).len() implies #[trigger] b64_of(s)[i]
            < 128 by {
            if i >= 4 {
                assert(b64_of(s)[i] == b64_of(s.skip(3))[i - 4]);
            }
        }
    }
}

} // verus!
