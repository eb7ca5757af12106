//! Byte-level text helpers: ASCII views, decimal formatting and
//! percent-encoding for URL query values.
use vstd::prelude::*;
use vstd::string::StringSliceAdditionalSpecFns;

verus! {

/// The characters that a byte sequence spells, one character per byte.
/// Meaningful for ASCII bytes, which is all this library produces.
pub open spec fn chars_of_bytes(b: Seq<u8>) -> Seq<char> {
    Seq::new(b.len(), |i: int| b[i] as char)
}

/// Append the bytes of a string slice to a byte vector.
pub fn append_str_bytes(out: &mut Vec<u8>, s: &str)
    ensures
        final(out)@ == old(out)@ + s.spec_bytes(),
{
    out.extend_from_slice(s.as_bytes());
}

/// The decimal digits of `n`, most significant first, as ASCII bytes.
pub open spec fn dec_of(n: nat) -> Seq<u8>
    decreases n,
{
    if n < 10 {
        seq![(48 + n) as u8]
    } else {
        dec_of(n / 10) + seq![(48 + n % 10) as u8]
    }
}

/// Render `n` in decimal.
pub fn u64_to_dec(n: u64) -> (r: Vec<u8>)
    ensures
        r@ == dec_of(n as nat),
    decreases n,
{
    if n < 10 {
        let mut v: Vec<u8> = Vec::new();
        v.push(48 + (n as u8));
        assert(v@ =~= dec_of(n as nat));
        v
    } else {
        let mut v = u64_to_dec(n / 10);
        v.push(48 + ((n % 10) as u8));
        assert(v@ =~= dec_of(n as nat));
        v
    }
}

/// Every decimal digit byte is a printable ASCII byte.
pub proof fn lemma_dec_of_ascii(n: nat)
    ensures
        forall|i: int| 0 <= i < dec_of(n).len() ==> 48 <= #[trigger] dec_of(n)[i] <= 57,
    decreases n,
{
    if n < 10 {
        assert(dec_of(n) =~= seq![(48 + n) as u8]);
    } else {
        lemma_dec_of_ascii(n / 10);
        assert(dec_of(n) == dec_of(n / 10) + seq![(48 + n % 10) as u8]);
        assert forall|i: int| 0 <= i < dec_of(n).len() implies 48 <= #[trigger] dec_of(n)[i]
            <= 57 by {
            if i < dec_of(n / 10).len() {
                assert(dec_of(n)[i] == dec_of(n / 10)[i]);
            } else {
                assert(dec_of(n)[i] == (48 + n % 10) as u8);
            }
        }
    }
}

/// Bytes that stand for themselves in a URL query value.
pub open spec fn is_unreserved(b: u8) -> bool {
    (48 <= b <= 57) || (65 <= b <= 90) || (97 <= b <= 122) || b == 45 || b == 46 || b == 95
        || b == 126
}

/// The ASCII byte of a hexadecimal digit, upper case.
pub open spec fn hex_digit(d: int) -> u8 {
    if d < 10 {
        (48 + d) as u8
    } else {
        (55 + d) as u8
    }
}

/// The percent-encoding of one byte.
pub open spec fn pct_of_byte(b: u8) -> Seq<u8> {
    if is_unreserved(b) {
        seq![b]
    } else {
        seq![37u8, hex_digit(b as int / 16), hex_digit(b as int % 16)]
    }
}

/// The percent-encoding of a byte sequence.
pub open spec fn pct_of(s: Seq<u8>) -> Seq<u8>
    decreases s.len(),
{
    if s.len() == 0 {
        Seq::empty()
    } else {
        pct_of_byte(s[0]) + pct_of(s.skip(1))
    }
}

pub proof fn lemma_pct_of_push(s: Seq<u8>, b: u8)
    ensures
        pct_of(s.push(b)) =~= pct_of(s) + pct_of_byte(b),
    decreases s.len(),
{
    if s.len() == 0 {
        assert(s.push(b).skip(1) =~= Seq::<u8>::empty());
        assert(s.push(b)[0] == b);
        assert(pct_of(s.push(b)) == pct_of_byte(b) + pct_of(Seq::<u8>::empty()));
        assert(pct_of(Seq::<u8>::empty()) =~= Seq::<u8>::empty());
        assert(pct_of(s) =~= Seq::<u8>::empty());
    } else {
        assert(s.push(b).skip(1) =~= s.skip(1).push(b));
        lemma_pct_of_push(s.skip(1), b);
        assert(s.push(b)[0] == s[0]);
        assert(pct_of(s.push(b)) == pct_of_byte(s[0]) + pct_of(s.skip(1).push(b)));
        assert(pct_of(s) == pct_of_byte(s[0]) + pct_of(s.skip(1)));
    }
}

/// Every percent-encoded byte is printable ASCII.
pub proof fn lemma_pct_ascii(s: Seq<u8>)
    ensures
        forall|i: int| 0 <= i < pct_of(s).len() ==> #[trigger] pct_of(s)[i] < 128,
    decreases s.len(),
{
    if s.len() > 0 {
        lemma_pct_ascii(s.skip(1));
        assert forall|i: int| 0 <= i < pct_of(s).len() implies #[trigger] pct_of(s)[i] < 128 by {
            let head = pct_of_byte(s[0]);
            if i >= head.len() {
                assert(pct_of(s)[i] == pct_of(s.skip(1))[i - head.len()]);
            }
        }
    }
}

fn hex_digit_exec(d: u8) -> (r: u8)
    requires
        d < 16,
    ensures
        r == hex_digit(d as int),
{
    if d < 10 {
        48 + d
    } else {
        55 + d
    }
}

/// Append the percent-encoding of `src` to `out`.
pub fn append_pct(out: &mut Vec<u8>, src: &Vec<u8>)
    ensures
        final(out)@ == old(out)@ + pct_of(src@),
{
    let n = src.len();
    let mut i: usize = 0;
    while i < n
        invariant
            n == src@.len(),
            i <= n,
            out@ == old(out)@ + pct_of(src@.take(i as int)),
        decreases n - i,
    {
        let b = src[i];
        if (48 <= b && b <= 57) || (65 <= b && b <= 90) || (97 <= b && b <= 122) || b == 45
            || b == 46 || b == 95 || b == 126 {
            out.push(b);
        } else {
            out.push(37u8);
            out.push(hex_digit_exec(b / 16));
            out.push(hex_digit_exec(b % 16));
        }
        proof {
            lemma_pct_of_push(src@.take(i as int), src@[i as int]);
            assert(src@.take(i as int).push(src@[i as int]) =~= src@.take(i as int + 1));
        }
        i = i + 1;
    }
    proof {
        assert(src@.take(n as int) =~= src@);
    }
}

/// The segments of `s` between commas; always at least one segment, and
/// one more than the number of commas.
pub open spec fn split_commas(s: Seq<u8>) -> Seq<Seq<u8>>
    decreases s.len(),
{
    if s.len() == 0 {
        seq![s]
    } else if s[0] == 44 {
        seq![Seq::<u8>::empty()] + split_commas(s.skip(1))
    } else {
        let rest = split_commas(s.skip(1));
        seq![seq![s[0]] + rest[0]] + rest.skip(1)
    }
}

/// A comma-free sequence is one segment.
pub proof fn lemma_split_no_comma(s: Seq<u8>)
    requires
        forall|m: int| 0 <= m < s.len() ==> s[m] != 44,
    ensures
        split_commas(s) =~= seq![s],
    decreases s.len(),
{
    if s.len() > 0 {
        assert(forall|m: int| 0 <= m < s.skip(1).len() ==> s.skip(1)[m] == s[m + 1]);
        lemma_split_no_comma(s.skip(1));
        assert(seq![s[0]] + s.skip(1) =~= s);
        assert(split_commas(s.skip(1)).skip(1) =~= Seq::<Seq<u8>>::empty());
    }
}

/// Splitting at the first comma peels one segment off.
pub proof fn lemma_split_at_comma(s: Seq<u8>, j: int)
    requires
        0 <= j < s.len(),
        s[j] == 44,
        forall|m: int| 0 <= m < j ==> s[m] != 44,
    ensures
        split_commas(s) =~= seq![s.take(j)] + split_commas(s.skip(j + 1)),
    decreases j,
{
    if j == 0 {
        assert(s.take(0) =~= Seq::<u8>::empty());
    } else {
        assert(forall|m: int| 0 <= m < s.skip(1).len() ==> s.skip(1)[m] == s[m + 1]);
        lemma_split_at_comma(s.skip(1), j - 1);
        assert(s.skip(1).take(j - 1) =~= s.take(j).skip(1));
        assert(s.skip(1).skip(j) =~= s.skip(j + 1));
        let rest = split_commas(s.skip(1));
        assert(rest =~= seq![s.skip(1).take(j - 1)] + split_commas(s.skip(1).skip(j)));
        assert(seq![s[0]] + rest[0] =~= s.take(j));
        assert(rest.skip(1) =~= split_commas(s.skip(j + 1)));
    }
}

/// Copy `v[a..b]` out as a new vector.
pub fn vec_subrange(v: &Vec<u8>, a: usize, b: usize) -> (r: Vec<u8>)
    requires
        a <= b <= v@.len(),
    ensures
        r@ == v@.subrange(a as int, b as int),
{
    let mut r: Vec<u8> = Vec::new();
    let mut i: usize = a;
    while i < b
        invariant
            a <= i <= b <= v@.len(),
            r@ == v@.subrange(a as int, i as int),
        decreases b - i,
    {
        r.push(v[i]);
        assert(r@ =~= v@.subrange(a as int, i as int + 1));
        i = i + 1;
    }
    r
}

/// Split `src` into its comma-separated segments.
pub fn split_on_comma(src: &Vec<u8>) -> (r: Vec<Vec<u8>>)
    ensures
        r@.len() == split_commas(src@).len(),
        forall|i: int|
            0 <= i < r@.len() ==> (#[trigger] r@[i])@ == split_commas(src@)[i],
{
    let n = src.len();
    let mut out: Vec<Vec<u8>> = Vec::new();
    let mut start: usize = 0;
    let ghost whole = split_commas(src@);
    proof {
        assert(src@.skip(0) =~= src@);
        assert(out@.map_values(|v: Vec<u8>| v@) =~= Seq::<Seq<u8>>::empty());
    }
    loop
        invariant_except_break
            whole =~= out@.map_values(|v: Vec<u8>| v@) + split_commas(src@.skip(start as int)),
        invariant
            start <= n,
            n == src@.len(),
            whole == split_commas(src@),
        ensures
            whole =~= out@.map_values(|v: Vec<u8>| v@),
        decreases n - start,
    {
        let mut j: usize = start;
        while j < n && src[j] != 44
            invariant
                start <= j <= n,
                n == src@.len(),
                forall|m: int| start <= m < j ==> src@[m] != 44,
            decreases n - j,
        {
            j = j + 1;
        }
        let seg = vec_subrange(src, start, j);
        proof {
            let suf = src@.skip(start as int);
            assert(forall|m: int| 0 <= m < j - start ==> suf[m] == src@[m + start] && suf[m] != 44);
            if j < n {
                assert(suf[j - start as int] == 44);
                lemma_split_at_comma(suf, j - start as int);
                assert(suf.take(j - start as int) =~= src@.subrange(start as int, j as int));
                assert(suf.skip(j - start as int + 1) =~= src@.skip(j as int + 1));
            } else {
                lemma_split_no_comma(suf);
                assert(suf =~= src@.subrange(start as int, j as int));
            }
        }
        out.push(seg);
        if j < n {
            proof {
                assert(out@.map_values(|v: Vec<u8>| v@) =~= out@.drop_last().map_values(
                    |v: Vec<u8>| v@,
                ).push(src@.subrange(start as int, j as int)));
            }
            start = j + 1;
        } else {
            proof {
                assert(out@.map_values(|v: Vec<u8>| v@) =~= out@.drop_last().map_values(
                    |v: Vec<u8>| v@,
                ).push(src@.subrange(start as int, j as int)));
                assert(split_commas(src@.skip(j as int)).len() >= 1);
                assert(whole =~= out@.map_values(|v: Vec<u8>| v@));
            }
            break;
        }
    }
    proof {
        let mapped = out@.map_values(|v: Vec<u8>| v@);
        assert(forall|i: int| 0 <= i < out@.len() ==> #[trigger] mapped[i] == out@[i]@);
    }
    out
}

/// Whether `p` is a prefix of `v`.
pub open spec fn has_prefix(v: Seq<u8>, p: Seq<u8>) -> bool {
    v.len() >= p.len() && v.take(p.len() as int) == p
}

/// Compare a leading slice of `v` against `p`.
pub fn slice_has_prefix(v: &[u8], p: &[u8]) -> (r: bool)
    ensures
        r == has_prefix(v@, p@),
{
    if v.len() < p.len() {
        assert(!has_prefix(v@, p@));
        return false;
    }
    let n = p.len();
    let mut i: usize = 0;
    while i < n
        invariant
            n == p@.len(),
            v@.len() >= n,
            i <= n,
            forall|j: int| 0 <= j < i ==> v@[j] == p@[j],
        decreases n - i,
    {
        if v[i] != p[i] {
            assert(v@.take(n as int)[i as int] != p@[i as int]);
            return false;
        }
        i = i + 1;
    }
    assert(v@.take(n as int) =~= p@);
    true
}

} // verus!
