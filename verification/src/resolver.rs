//! Identity resolution logic: deriving lookup queries from a handle,
//! reading DNS TXT answers, and cross-validating a DID document against
//! the handle that led to it. The lookups themselves are network work the
//! caller performs; every decision about their results is made here.
use vstd::prelude::*;
use vstd::string::{StrSliceExecFns, StringExecFns};
use crate::FlowError;

verus! {

/// Whether `p` starts `s`.
pub open spec fn chars_has_prefix(s: Seq<char>, p: Seq<char>) -> bool {
    s.len() >= p.len() && s.take(p.len() as int) == p
}

/// Compare a leading run of characters.
pub fn str_has_prefix(s: &str, p: &str) -> (r: bool)
    ensures
        r == chars_has_prefix(s@, p@),
{
    let sn = s.unicode_len();
    let pn = p.unicode_len();
    if sn < pn {
        return false;
    }
    let mut i: usize = 0;
    while i < pn
        invariant
            sn == s@.len(),
            pn == p@.len(),
            sn >= pn,
            i <= pn,
            forall|j: int| 0 <= j < i ==> s@[j] == p@[j],
        decreases pn - i,
    {
        if s.get_char(i) != p.get_char(i) {
            assert(s@.take(pn as int)[i as int] != p@[i as int]);
            return false;
        }
        i = i + 1;
    }
    assert(s@.take(pn as int) =~= p@);
    true
}

/// A well-formed DID this client can resolve: a `did:plc:` or `did:web:`
/// identifier with a nonempty method-specific part.
pub open spec fn valid_did(s: Seq<char>) -> bool {
    (chars_has_prefix(s, "did:plc:"@) || chars_has_prefix(s, "did:web:"@)) && s.len() > 8
}

pub fn is_valid_did(s: &str) -> (r: bool)
    ensures
        r == valid_did(s@),
{
    let plc = str_has_prefix(s, "did:plc:");
    let web = str_has_prefix(s, "did:web:");
    proof {
        reveal_strlit("did:plc:");
        reveal_strlit("did:web:");
    }
    (plc || web) && s.unicode_len() > 8
}

/// The DNS TXT record name that answers for a handle.
pub fn txt_query_for_handle(handle: &str) -> (r: String)
    ensures
        r@ == "_atproto."@ + handle@,
{
    let mut q = "_atproto.".to_owned();
    q.append(handle);
    q
}

/// The HTTPS fallback that answers for a handle when DNS yields nothing.
pub fn well_known_url_for_handle(handle: &str) -> (r: String)
    ensures
        r@ == "https://"@ + handle@ + "/.well-known/atproto-did"@,
{
    let mut q = "https://".to_owned();
    q.append(handle);
    q.append("/.well-known/atproto-did");
    q
}

/// Where the document of a `did:plc:` identifier is fetched.
pub fn plc_directory_url(did: &str) -> (r: String)
    ensures
        r@ == "https://plc.directory/"@ + did@,
{
    let mut q = "https://plc.directory/".to_owned();
    q.append(did);
    q
}

/// Whether a TXT record carries a usable DID answer.
pub open spec fn txt_candidate(s: Seq<char>) -> bool {
    chars_has_prefix(s, "did="@) && valid_did(s.skip(4))
}

/// The DID named by the first usable `did=` TXT record, if any.
pub fn did_from_txt_records(records: &Vec<String>) -> (r: Option<String>)
    ensures
        match r {
            Some(d) => exists|i: int|
                0 <= i < records@.len() && txt_candidate(records@[i]@) && d@ == records@[i]@.skip(4)
                    && (forall|j: int| 0 <= j < i ==> !txt_candidate(#[trigger] records@[j]@)),
            None => forall|i: int| 0 <= i < records@.len() ==> !txt_candidate(#[trigger] records@[i]@),
        },
{
    let n = records.len();
    let mut i: usize = 0;
    while i < n
        invariant
            n == records@.len(),
            i <= n,
            forall|j: int| 0 <= j < i ==> !txt_candidate(#[trigger] records@[j]@),
        decreases n - i,
    {
        let rec = &records[i];
        if str_has_prefix(rec, "did=") {
            proof {
                reveal_strlit("did=");
            }
            let rn = rec.unicode_len();
            assert(rn >= 4);
            let rest = rec.substring_char(4, rn);
            if is_valid_did(rest) {
                assert(rest@ =~= rec@.skip(4));
                return Some(rest.to_owned());
            }
            assert(rest@ =~= rec@.skip(4));
        }
        i = i + 1;
    }
    None
}

/// A resolved DID document, reduced to what the flow reads: the document's
/// own identifier and the handles it claims.
pub struct DidDocument {
    /// The DID the document describes.
    pub id: String,
    /// The `alsoKnownAs` aliases, each expected as an `at://` URI.
    pub also_known_as: Vec<String>,
    /// The personal data server endpoint the document names, if any.
    pub pds_endpoint: Option<String>,
}

/// A verified pairing of a DID and the handle its document claims.
pub struct Identity {
    pub did: String,
    pub handle: String,
}

/// The claimed aliases of a document, as character sequences.
pub open spec fn aka_of(doc: DidDocument) -> Seq<Seq<char>> {
    doc.also_known_as@.map_values(|s: String| s@)
}

/// The handle a document claims, as the callers' contracts state it:
/// the first `at://` alias holds it.
pub open spec fn doc_claims_handle(aka: Seq<Seq<char>>, h: Seq<char>) -> bool {
    exists|i: int|
        0 <= i < aka.len() && (#[trigger] aka[i]) == "at://"@ + h && (forall|j: int|
            0 <= j < i ==> !chars_has_prefix(#[trigger] aka[j], "at://"@))
}

/// The primary handle of a document: the first `at://` alias, stripped.
pub fn doc_handle(doc: &DidDocument) -> (r: Option<String>)
    ensures
        match r {
            Some(h) => doc_claims_handle(aka_of(*doc), h@),
            None => forall|i: int|
                0 <= i < doc.also_known_as@.len() ==> !chars_has_prefix(
                    (#[trigger] doc.also_known_as@[i])@,
                    "at://"@,
                ),
        },
{
    let n = doc.also_known_as.len();
    let ghost aka = aka_of(*doc);
    let mut i: usize = 0;
    while i < n
        invariant
            n == doc.also_known_as@.len(),
            aka == aka_of(*doc),
            aka.len() == n,
            forall|m: int| 0 <= m < n ==> #[trigger] aka[m] == doc.also_known_as@[m]@,
            i <= n,
            forall|j: int| 0 <= j < i ==> !chars_has_prefix(#[trigger] aka[j], "at://"@),
        decreases n - i,
    {
        let alias = &doc.also_known_as[i];
        if str_has_prefix(alias, "at://") {
            proof {
                reveal_strlit("at://");
            }
            let an = alias.unicode_len();
            let rest = alias.substring_char(5, an);
            proof {
                assert(rest@ =~= alias@.skip(5));
                assert(alias@ =~= "at://"@ + alias@.skip(5));
                assert(aka[i as int] == "at://"@ + rest@);
                assert(doc_claims_handle(aka, rest@));
            }
            return Some(rest.to_owned());
        }
        i = i + 1;
    }
    proof {
        assert forall|m: int|
            0 <= m < doc.also_known_as@.len() implies !chars_has_prefix(
            (#[trigger] doc.also_known_as@[m])@,
            "at://"@,
        ) by {
            assert(aka[m] == doc.also_known_as@[m]@);
        }
    }
    None
}

/// Whether a document is a consistent answer for resolving `handle`: the
/// document is for `did` and its primary claimed handle is `handle`.
pub open spec fn resolution_consistent(
    doc_id: Seq<char>,
    aka: Seq<Seq<char>>,
    did: Seq<char>,
    handle: Seq<char>,
) -> bool {
    doc_id == did && doc_claims_handle(aka, handle)
}

/// Cross-validate a fetched DID document against the handle that led to it
/// and the DID it was fetched for. A mismatch is unresolved, never an
/// identity.
pub fn validate_resolution(doc: &DidDocument, did: &String, handle: &String) -> (r: Result<
    Identity,
    FlowError,
>)
    ensures
        match r {
            Ok(id) => id.did@ == did@ && id.handle@ == handle@ && resolution_consistent(
                doc.id@,
                aka_of(*doc),
                did@,
                handle@,
            ),
            Err(e) => e == FlowError::Resolution && !resolution_consistent(
                doc.id@,
                aka_of(*doc),
                did@,
                handle@,
            ),
        },
{
    let ghost aka = aka_of(*doc);
    if !(doc.id == *did) {
        return Err(FlowError::Resolution);
    }
    match doc_handle(doc) {
        Some(h) => {
            if h == *handle {
                proof {
                    lemma_doc_handle_unique(aka, h@, handle@);
                }
                Ok(Identity { did: did.clone(), handle: handle.clone() })
            } else {
                proof {
                    lemma_doc_handle_unique(aka, h@, handle@);
                }
                Err(FlowError::Resolution)
            }
        },
        None => {
            proof {
                reveal_strlit("at://");
            if doc_claims_handle(aka, handle@) {
                    let i = choose|i: int|
                        0 <= i < aka.len() && (#[trigger] aka[i]) == "at://"@ + handle@ && (
                        forall|j: int| 0 <= j < i ==> !chars_has_prefix(#[trigger] aka[j], "at://"@));
                    assert(chars_has_prefix(aka[i], "at://"@)) by {
                        assert(aka[i].take("at://"@.len() as int) =~= "at://"@);
                    }
                }
            }
            Err(FlowError::Resolution)
        },
    }
}

/// A document claims at most one primary handle: resolving a handle to a
/// DID and that DID back through the same document yields the same handle,
/// or resolution reports failure.
pub proof fn lemma_doc_handle_unique(aka: Seq<Seq<char>>, h1: Seq<char>, h2: Seq<char>)
    requires
        doc_claims_handle(aka, h1),
    ensures
        doc_claims_handle(aka, h2) <==> h1 == h2,
{
    reveal_strlit("at://");
    let i1 = choose|i: int|
        0 <= i < aka.len() && (#[trigger] aka[i]) == "at://"@ + h1 && (forall|j: int|
            0 <= j < i ==> !chars_has_prefix(#[trigger] aka[j], "at://"@));
    assert(chars_has_prefix(aka[i1], "at://"@)) by {
        assert(aka[i1].take("at://"@.len() as int) =~= "at://"@);
    }
    if doc_claims_handle(aka, h2) {
        let i2 = choose|i: int|
            0 <= i < aka.len() && (#[trigger] aka[i]) == "at://"@ + h2 && (forall|j: int|
                0 <= j < i ==> !chars_has_prefix(#[trigger] aka[j], "at://"@));
        assert(chars_has_prefix(aka[i2], "at://"@)) by {
            assert(aka[i2].take("at://"@.len() as int) =~= "at://"@);
        }
        assert(i1 == i2);
        assert(("at://"@ + h1).skip(5) =~= h1);
        assert(("at://"@ + h2).skip(5) =~= h2);
    }
}

} // verus!
