//! The authorization flow engine: building the authorize URL, tracking
//! in-flight attempts, consuming callbacks exactly once, preparing the
//! signed token exchange, and persisting sessions for verified identities.
//! The network calls themselves (discovery, the token POST, identity
//! lookups) are performed by the caller; every decision about their inputs
//! and outputs is made and verified here.
use vstd::prelude::*;
use vstd::string::{StrSliceExecFns, StringExecFns, StringSliceAdditionalSpecFns};
use vstd::utf8::encode_utf8;
use crate::FlowError;
use crate::b64::{append_b64, b64_of, lemma_b64_ascii};
use crate::crypto::{es256_sig_of, es256_sign, now_secs, random_bytes, sha256, sha256_of,
    ascii_to_string};
use crate::keys::{KeySet, SigningKey, JwkSet, public_jwk_set, load_keys};
use crate::metadata::{ClientMetadata, build_client_metadata};
use crate::resolver::Identity;
use crate::store::KeyedStore;
use crate::text::{append_pct, append_str_bytes, chars_of_bytes, dec_of, lemma_pct_ascii, pct_of,
    u64_to_dec};

verus! {

/// The characters of the percent-encoding of some bytes.
pub open spec fn pct_chars(b: Seq<u8>) -> Seq<char> {
    chars_of_bytes(pct_of(b))
}

/// The characters of the base64url encoding of some bytes.
pub open spec fn b64_chars(b: Seq<u8>) -> Seq<char> {
    chars_of_bytes(b64_of(b))
}

/// The PKCE challenge for a verifier: base64url of its SHA-256 digest.
pub open spec fn challenge_chars(verifier: Seq<char>) -> Seq<char> {
    b64_chars(sha256_of(encode_utf8(verifier)))
}

/// What discovery resolved for the user's authorization server.
pub struct AuthServer {
    /// The issuer identifier the server advertises.
    pub issuer: String,
    /// Where the user is sent to consent.
    pub authorization_endpoint: String,
    /// Where the code is exchanged.
    pub token_endpoint: String,
    /// Whether the server advertises the authorization code grant.
    pub supports_authorization_code: bool,
}

/// One in-flight login attempt, stored under its state token.
pub struct AuthorizationState {
    /// The issuer recorded at authorize time; the callback must repeat it.
    pub issuer: String,
    /// The token endpoint recorded at authorize time.
    pub token_endpoint: String,
    /// The PKCE verifier, revealed only at token exchange.
    pub verifier: String,
}

/// One completed login, stored under the user's DID.
pub struct OAuthSession {
    pub did: String,
    pub access_token: String,
    pub refresh_token: Option<String>,
    pub issuer: String,
    pub token_endpoint: String,
}

/// The query parameters the provider's redirect carries.
pub struct CallbackParams {
    pub code: String,
    pub state: String,
    pub iss: Option<String>,
}

/// What a successful token exchange returned.
pub struct TokenResponse {
    pub access_token: String,
    pub refresh_token: Option<String>,
    /// The subject the tokens were issued for; a DID.
    pub sub: String,
}

/// An HTTP POST the caller must perform: a form-encoded body for a URL.
pub struct TokenRequest {
    pub url: String,
    pub body: String,
}

/// The authorization URL the user is redirected to.
pub open spec fn authorize_url_spec(
    endpoint: Seq<char>,
    client_id: Seq<char>,
    redirect_uri: Seq<char>,
    scope: Seq<char>,
    state: Seq<char>,
    verifier: Seq<char>,
) -> Seq<char> {
    endpoint + "?client_id="@ + pct_chars(encode_utf8(client_id)) + "&redirect_uri="@ + pct_chars(
        encode_utf8(redirect_uri),
    ) + "&response_type=code&scope="@ + pct_chars(encode_utf8(scope)) + "&state="@ + state
        + "&code_challenge="@ + challenge_chars(verifier) + "&code_challenge_method=S256"@
}

/// The protected JWT header naming the signing key.
pub open spec fn header_bytes(kid: Seq<u8>) -> Seq<u8> {
    encode_utf8("{\"alg\":\"ES256\",\"kid\":\""@) + kid + encode_utf8("\"}"@)
}

/// The JWT claims of the client assertion: issuer and subject are the
/// client, the audience is the token endpoint, with a fresh id and expiry.
pub open spec fn payload_bytes(client_id: Seq<char>, aud: Seq<char>, exp: nat, jti: Seq<u8>) -> Seq<
    u8,
> {
    encode_utf8("{\"iss\":\""@) + encode_utf8(client_id) + encode_utf8("\",\"sub\":\""@)
        + encode_utf8(client_id) + encode_utf8("\",\"aud\":\""@) + encode_utf8(aud) + encode_utf8(
        "\",\"jti\":\""@,
    ) + jti + encode_utf8("\",\"exp\":"@) + dec_of(exp) + encode_utf8("}"@)
}

/// The two signed JWT segments.
pub open spec fn signing_input_bytes(
    kid: Seq<u8>,
    client_id: Seq<char>,
    aud: Seq<char>,
    exp: nat,
    jti: Seq<u8>,
) -> Seq<u8> {
    b64_of(header_bytes(kid)) + seq![46u8] + b64_of(payload_bytes(client_id, aud, exp, jti))
}

/// The complete signed client assertion.
pub open spec fn assertion_chars(
    kid: Seq<u8>,
    d: Seq<u8>,
    client_id: Seq<char>,
    aud: Seq<char>,
    exp: nat,
    jti: Seq<u8>,
) -> Seq<char> {
    let si = signing_input_bytes(kid, client_id, aud, exp, jti);
    chars_of_bytes(si) + "."@ + b64_chars(es256_sig_of(d, si))
}

/// The form-encoded token exchange body.
pub open spec fn token_body_spec(
    client_id: Seq<char>,
    redirect_uri: Seq<char>,
    code: Seq<char>,
    verifier: Seq<char>,
    assertion: Seq<char>,
) -> Seq<char> {
    "grant_type=authorization_code&code="@ + pct_chars(encode_utf8(code)) + "&redirect_uri="@
        + pct_chars(encode_utf8(redirect_uri)) + "&code_verifier="@ + pct_chars(
        encode_utf8(verifier),
    ) + "&client_id="@ + pct_chars(encode_utf8(client_id))
        + "&client_assertion_type=urn%3Aietf%3Aparams%3Aoauth%3Aclient-assertion-type%3Ajwt-bearer&client_assertion="@
        + assertion
}

/// Whether the callback repeated the issuer recorded at authorize time.
pub open spec fn issuer_ok(iss: Option<String>, recorded: Seq<char>) -> bool {
    match iss {
        Some(s) => s@ == recorded,
        None => false,
    }
}

/// A prepared token exchange, handed back to the caller to perform.
pub struct PendingExchange {
    /// The issuer of the attempt, kept for the session.
    pub issuer: String,
    /// The POST to perform.
    pub request: TokenRequest,
    /// The assertion expiry that was signed.
    pub exp: u64,
    /// The base64url assertion id that was signed.
    pub jti: Vec<u8>,
}

/// A successful exchange awaiting identity verification.
pub struct PendingIdentity {
    pub did: String,
    pub access_token: String,
    pub refresh_token: Option<String>,
    pub issuer: String,
    pub token_endpoint: String,
}

/// One engine step issued a fresh binding under `tok` and touched nothing
/// else: the token was not in flight before and is afterwards.
pub open spec fn issues(
    pre: KeyedStore<AuthorizationState>,
    post: KeyedStore<AuthorizationState>,
    tok: Seq<char>,
) -> bool {
    &&& pre.spec_lookup(tok) is None
    &&& post.spec_lookup(tok) is Some
    &&& forall|k: Seq<char>| k != tok ==> post.spec_lookup(k) == pre.spec_lookup(k)
}

/// Every successful authorize call issues a token no other in-flight
/// attempt holds: two consecutive successful calls issue distinct tokens.
pub proof fn lemma_issued_tokens_distinct(
    s0: KeyedStore<AuthorizationState>,
    s1: KeyedStore<AuthorizationState>,
    s2: KeyedStore<AuthorizationState>,
    t1: Seq<char>,
    t2: Seq<char>,
)
    requires
        issues(s0, s1, t1),
        issues(s1, s2, t2),
    ensures
        t1 != t2,
{
}

/// One engine step consumed the binding of `tok` and touched nothing else;
/// `ok` only ever holds when the binding was there to consume.
pub open spec fn consumes(
    pre: KeyedStore<AuthorizationState>,
    post: KeyedStore<AuthorizationState>,
    tok: Seq<char>,
    ok: bool,
) -> bool {
    &&& (ok ==> pre.spec_lookup(tok) is Some)
    &&& post.spec_lookup(tok) is None
    &&& forall|k: Seq<char>| k != tok ==> post.spec_lookup(k) == pre.spec_lookup(k)
}

/// A state token is consumed at most once: of two consecutive callback
/// steps on the same token, the second can never succeed, whatever the
/// first returned.
pub proof fn lemma_state_token_single_use(
    s0: KeyedStore<AuthorizationState>,
    s1: KeyedStore<AuthorizationState>,
    s2: KeyedStore<AuthorizationState>,
    tok: Seq<char>,
    ok1: bool,
    ok2: bool,
)
    requires
        consumes(s0, s1, tok, ok1),
        consumes(s1, s2, tok, ok2),
    ensures
        !ok2,
        !(ok1 && ok2),
{
}

/// Append the percent-encoding of a string to a URL or form body.
fn append_pct_str(out: &mut String, s: &str)
    ensures
        final(out)@ == old(out)@ + pct_chars(encode_utf8(s@)),
{
    let bytes = s.as_bytes_vec();
    let mut enc: Vec<u8> = Vec::new();
    append_pct(&mut enc, &bytes);
    proof {
        lemma_pct_ascii(bytes@);
    }
    let es = ascii_to_string(&enc);
    out.append(es.as_str());
}

/// The authorization flow engine.
pub struct OAuthFlow {
    /// The immutable client description; never mutated after construction.
    pub metadata: ClientMetadata,
    /// The held signing keys; never mutated after construction.
    pub keys: KeySet,
    /// In-flight attempts, keyed by state token.
    pub states: KeyedStore<AuthorizationState>,
    /// Completed sessions, keyed by DID.
    pub sessions: KeyedStore<OAuthSession>,
}

impl OAuthFlow {
    pub open spec fn wf(&self) -> bool {
        &&& self.keys.wf()
        &&& self.states.inv()
        &&& self.sessions.inv()
    }

    /// A fresh engine with no attempts and no sessions.
    pub fn new(metadata: ClientMetadata, keys: KeySet) -> (r: OAuthFlow)
        requires
            keys.wf(),
        ensures
            r.wf(),
            r.metadata == metadata,
            r.keys == keys,
            forall|k: Seq<char>| r.states.spec_lookup(k) is None,
            forall|k: Seq<char>| r.sessions.spec_lookup(k) is None,
    {
        OAuthFlow { metadata, keys, states: KeyedStore::new(), sessions: KeyedStore::new() }
    }

    /// The discovery document for remote servers; stable for the process
    /// lifetime since nothing mutates the metadata.
    pub fn client_metadata_document(&self) -> (r: &ClientMetadata)
        ensures
            *r == self.metadata,
    {
        &self.metadata
    }

    /// The published public key set: public components only.
    pub fn jwks_document(&self) -> (r: JwkSet)
        requires
            self.wf(),
        ensures
            r.keys@.len() == self.keys.keys@.len(),
            forall|j: int|
                0 <= j < r.keys@.len() ==> crate::keys::jwk_matches(
                    #[trigger] r.keys@[j],
                    self.keys.keys@[j],
                ),
    {
        public_jwk_set(&self.keys)
    }

    /// Record one attempt and build the authorization URL for it. Fails,
    /// and changes nothing, when the client holds no signing key, when the
    /// server does not advertise the authorization code grant, or when the
    /// state token is already in flight.
    pub fn authorize(&mut self, server: &AuthServer, state_token: String, verifier: String) -> (r:
        Result<String, FlowError>)
        requires
            old(self).wf(),
        ensures
            final(self).wf(),
            final(self).metadata == old(self).metadata,
            final(self).keys == old(self).keys,
            final(self).sessions == old(self).sessions,
            match r {
                Ok(url) => {
                    &&& old(self).keys.keys@.len() > 0
                    &&& server.supports_authorization_code
                    &&& old(self).states.spec_lookup(state_token@) is None
                    &&& url@ == authorize_url_spec(
                        server.authorization_endpoint@,
                        old(self).metadata.client_id@,
                        old(self).metadata.redirect_uri@,
                        old(self).metadata.scope@,
                        state_token@,
                        verifier@,
                    )
                    &&& match final(self).states.spec_lookup(state_token@) {
                        Some(st) => st.issuer@ == server.issuer@ && st.token_endpoint@
                            == server.token_endpoint@ && st.verifier@ == verifier@,
                        None => false,
                    }
                    &&& issues(old(self).states, final(self).states, state_token@)
                },
                Err(e) => {
                    &&& e == FlowError::Authorization
                    &&& (old(self).keys.keys@.len() == 0 || !server.supports_authorization_code
                        || old(self).states.spec_lookup(state_token@) is Some)
                    &&& final(self).states == old(self).states
                },
            },
    {
        if self.keys.len() == 0 {
            return Err(FlowError::Authorization);
        }
        if !server.supports_authorization_code {
            return Err(FlowError::Authorization);
        }
        if self.states.contains(&state_token) {
            return Err(FlowError::Authorization);
        }
        let vbytes = verifier.as_str().as_bytes_vec();
        let digest = sha256(&vbytes);
        let mut chal: Vec<u8> = Vec::new();
        append_b64(&mut chal, &digest);
        proof {
            lemma_b64_ascii(digest@);
        }
        let challenge = ascii_to_string(&chal);
        let mut url = server.authorization_endpoint.clone();
        url.append("?client_id=");
        append_pct_str(&mut url, self.metadata.client_id.as_str());
        url.append("&redirect_uri=");
        append_pct_str(&mut url, self.metadata.redirect_uri.as_str());
        url.append("&response_type=code&scope=");
        append_pct_str(&mut url, self.metadata.scope.as_str());
        url.append("&state=");
        url.append(state_token.as_str());
        url.append("&code_challenge=");
        url.append(challenge.as_str());
        url.append("&code_challenge_method=S256");
        let st = AuthorizationState {
            issuer: server.issuer.clone(),
            token_endpoint: server.token_endpoint.clone(),
            verifier,
        };
        self.states.put(state_token, st);
        Ok(url)
    }

    /// Begin one attempt with a fresh random state token and PKCE verifier.
    pub fn start_authorize(&mut self, server: &AuthServer) -> (r: Result<String, FlowError>)
        requires
            old(self).wf(),
        ensures
            final(self).wf(),
            final(self).metadata == old(self).metadata,
            final(self).keys == old(self).keys,
            final(self).sessions == old(self).sessions,
            old(self).keys.keys@.len() == 0 ==> r is Err,
            !server.supports_authorization_code ==> r is Err,
            match r {
                Ok(url) => exists|t: Seq<char>, v: Seq<char>|
                    {
                        &&& old(self).states.spec_lookup(t) is None
                        &&& #[trigger] url@ == authorize_url_spec(
                            server.authorization_endpoint@,
                            old(self).metadata.client_id@,
                            old(self).metadata.redirect_uri@,
                            old(self).metadata.scope@,
                            t,
                            v,
                        )
                        &&& match final(self).states.spec_lookup(t) {
                            Some(st) => st.issuer@ == server.issuer@ && st.token_endpoint@
                                == server.token_endpoint@ && st.verifier@ == v,
                            None => false,
                        }
                        &&& forall|k: Seq<char>|
                            k != t ==> final(self).states.spec_lookup(k) == old(
                                self,
                            ).states.spec_lookup(k)
                    },
                Err(e) => e == FlowError::Authorization && final(self).states == old(self).states,
            },
    {
        let traw = random_bytes(24);
        let mut tb: Vec<u8> = Vec::new();
        append_b64(&mut tb, &traw);
        proof {
            lemma_b64_ascii(traw@);
        }
        let token = ascii_to_string(&tb);
        let vraw = random_bytes(48);
        let mut vb: Vec<u8> = Vec::new();
        append_b64(&mut vb, &vraw);
        proof {
            lemma_b64_ascii(vraw@);
        }
        let verifier = ascii_to_string(&vb);
        let ghost t = token@;
        let ghost v = verifier@;
        let r = self.authorize(server, token, verifier);
        proof {
            if r is Ok {
                assert(r->Ok_0@ == authorize_url_spec(
                    server.authorization_endpoint@,
                    old(self).metadata.client_id@,
                    old(self).metadata.redirect_uri@,
                    old(self).metadata.scope@,
                    t,
                    v,
                ));
            }
        }
        r
    }

    /// Consume the state token of a callback and prepare the signed token
    /// exchange. The binding is taken atomically: whatever else happens,
    /// the token is spent afterwards, so a replay can never succeed. An
    /// absent, expired or replayed token is `InvalidState` and nothing else
    /// is looked at; a mismatched issuer fails before any request is built.
    pub fn callback_begin(&mut self, params: &CallbackParams) -> (r: Result<
        PendingExchange,
        FlowError,
    >)
        requires
            old(self).wf(),
        ensures
            final(self).wf(),
            final(self).metadata == old(self).metadata,
            final(self).keys == old(self).keys,
            final(self).sessions == old(self).sessions,
            consumes(old(self).states, final(self).states, params.state@, r is Ok),
            match r {
                Ok(pe) => {
                    &&& match old(self).states.spec_lookup(params.state@) {
                        Some(st) => {
                            &&& issuer_ok(params.iss, st.issuer@)
                            &&& pe.issuer@ == st.issuer@
                            &&& pe.request.url@ == st.token_endpoint@
                            &&& old(self).keys.keys@.len() > 0
                            &&& pe.request.body@ == token_body_spec(
                                old(self).metadata.client_id@,
                                old(self).metadata.redirect_uri@,
                                params.code@,
                                st.verifier@,
                                assertion_chars(
                                    old(self).keys.keys@[0].kid@,
                                    old(self).keys.keys@[0].d@,
                                    old(self).metadata.client_id@,
                                    st.token_endpoint@,
                                    pe.exp as nat,
                                    pe.jti@,
                                ),
                            )
                        },
                        None => false,
                    }
                },
                Err(e) => {
                    &&& (e == FlowError::InvalidState <==> old(self).states.spec_lookup(
                        params.state@,
                    ) is None)
                    &&& match old(self).states.spec_lookup(params.state@) {
                        Some(st) => {
                            &&& (e == FlowError::Callback || e == FlowError::Authorization)
                            &&& (!issuer_ok(params.iss, st.issuer@) ==> e == FlowError::Callback)
                            &&& (issuer_ok(params.iss, st.issuer@) && old(self).keys.keys@.len()
                                == 0 ==> e == FlowError::Authorization)
                        },
                        None => e == FlowError::InvalidState,
                    }
                },
            },
    {
        let st = match self.states.take_once(&params.state) {
            None => {
                return Err(FlowError::InvalidState);
            },
            Some(st) => st,
        };
        let iss_matches = match &params.iss {
            Some(s) => *s == st.issuer,
            None => false,
        };
        if !iss_matches {
            return Err(FlowError::Callback);
        }
        if self.keys.len() == 0 {
            return Err(FlowError::Authorization);
        }
        let key = &self.keys.keys[0];
        let now = now_secs();
        let exp = if now <= u64::MAX - 300 {
            now + 300
        } else {
            u64::MAX
        };
        let jraw = random_bytes(16);
        let mut jti: Vec<u8> = Vec::new();
        append_b64(&mut jti, &jraw);
        let mut hdr: Vec<u8> = Vec::new();
        append_str_bytes(&mut hdr, "{\"alg\":\"ES256\",\"kid\":\"");
        hdr.extend_from_slice(key.kid.as_slice());
        append_str_bytes(&mut hdr, "\"}");
        let cid_bytes = self.metadata.client_id.as_str().as_bytes_vec();
        let aud_bytes = st.token_endpoint.as_str().as_bytes_vec();
        let mut pl: Vec<u8> = Vec::new();
        append_str_bytes(&mut pl, "{\"iss\":\"");
        pl.extend_from_slice(cid_bytes.as_slice());
        append_str_bytes(&mut pl, "\",\"sub\":\"");
        pl.extend_from_slice(cid_bytes.as_slice());
        append_str_bytes(&mut pl, "\",\"aud\":\"");
        pl.extend_from_slice(aud_bytes.as_slice());
        append_str_bytes(&mut pl, "\",\"jti\":\"");
        pl.extend_from_slice(jti.as_slice());
        append_str_bytes(&mut pl, "\",\"exp\":");
        let expd = u64_to_dec(exp);
        pl.extend_from_slice(expd.as_slice());
        append_str_bytes(&mut pl, "}");
        proof {
            assert(hdr@ =~= header_bytes(key.kid@));
            assert(pl@ =~= payload_bytes(
                self.metadata.client_id@,
                st.token_endpoint@,
                exp as nat,
                jti@,
            ));
        }
        let mut si: Vec<u8> = Vec::new();
        append_b64(&mut si, &hdr);
        si.push(46);
        append_b64(&mut si, &pl);
        proof {
            assert(si@ =~= signing_input_bytes(
                key.kid@,
                self.metadata.client_id@,
                st.token_endpoint@,
                exp as nat,
                jti@,
            ));
        }
        let sig = match es256_sign(&key.d, &si) {
            None => {
                return Err(FlowError::Callback);
            },
            Some(s) => s,
        };
        let mut sigb: Vec<u8> = Vec::new();
        append_b64(&mut sigb, &sig);
        proof {
            lemma_b64_ascii(hdr@);
            lemma_b64_ascii(pl@);
            lemma_b64_ascii(sig@);
        }
        let si_str = ascii_to_string(&si);
        let sig_str = ascii_to_string(&sigb);
        let mut body = "grant_type=authorization_code&code=".to_owned();
        append_pct_str(&mut body, params.code.as_str());
        body.append("&redirect_uri=");
        append_pct_str(&mut body, self.metadata.redirect_uri.as_str());
        body.append("&code_verifier=");
        append_pct_str(&mut body, st.verifier.as_str());
        body.append("&client_id=");
        append_pct_str(&mut body, self.metadata.client_id.as_str());
        body.append(
            "&client_assertion_type=urn%3Aietf%3Aparams%3Aoauth%3Aclient-assertion-type%3Ajwt-bearer&client_assertion=",
        );
        body.append(si_str.as_str());
        body.append(".");
        body.append(sig_str.as_str());
        Ok(
            PendingExchange {
                issuer: st.issuer,
                request: TokenRequest { url: st.token_endpoint, body },
                exp,
                jti,
            },
        )
    }

    /// Read the outcome of the token exchange the caller performed.
    /// A rejected exchange is `Callback`; a granted exchange whose subject
    /// is not a resolvable DID shape is `Identity`.
    pub fn callback_exchange(&self, pending: PendingExchange, outcome: Option<TokenResponse>) -> (r:
        Result<PendingIdentity, FlowError>)
        ensures
            match r {
                Ok(pi) => match outcome {
                    Some(tr) => {
                        &&& crate::resolver::valid_did(tr.sub@)
                        &&& pi.did@ == tr.sub@
                        &&& pi.access_token@ == tr.access_token@
                        &&& pi.refresh_token == tr.refresh_token
                        &&& pi.issuer@ == pending.issuer@
                        &&& pi.token_endpoint@ == pending.request.url@
                    },
                    None => false,
                },
                Err(e) => match outcome {
                    Some(tr) => e == FlowError::Identity && !crate::resolver::valid_did(tr.sub@),
                    None => e == FlowError::Callback,
                },
            },
    {
        let tr = match outcome {
            None => {
                return Err(FlowError::Callback);
            },
            Some(tr) => tr,
        };
        if !crate::resolver::is_valid_did(tr.sub.as_str()) {
            return Err(FlowError::Identity);
        }
        Ok(
            PendingIdentity {
                did: tr.sub,
                access_token: tr.access_token,
                refresh_token: tr.refresh_token,
                issuer: pending.issuer,
                token_endpoint: pending.request.url,
            },
        )
    }

    /// Complete the flow once the caller resolved the subject DID. An
    /// unresolvable or mismatched identity persists nothing: an exchange
    /// that succeeded for an unverifiable DID must not become a session.
    pub fn callback_complete(&mut self, pi: PendingIdentity, resolution: Option<Identity>) -> (r:
        Result<(OAuthSession, Identity), FlowError>)
        requires
            old(self).wf(),
        ensures
            final(self).wf(),
            final(self).metadata == old(self).metadata,
            final(self).keys == old(self).keys,
            final(self).states == old(self).states,
            match r {
                Ok((session, id)) => {
                    &&& match resolution {
                        Some(rid) => id.did@ == rid.did@ && id.handle@ == rid.handle@ && rid.did@
                            == pi.did@,
                        None => false,
                    }
                    &&& session.did@ == pi.did@
                    &&& session.access_token@ == pi.access_token@
                    &&& session.refresh_token == pi.refresh_token
                    &&& session.issuer@ == pi.issuer@
                    &&& session.token_endpoint@ == pi.token_endpoint@
                    &&& match final(self).sessions.spec_lookup(pi.did@) {
                        Some(stored) => stored.did@ == pi.did@ && stored.access_token@
                            == pi.access_token@ && stored.refresh_token == pi.refresh_token
                            && stored.issuer@ == pi.issuer@ && stored.token_endpoint@
                            == pi.token_endpoint@,
                        None => false,
                    }
                    &&& forall|k: Seq<char>|
                        k != pi.did@ ==> final(self).sessions.spec_lookup(k) == old(
                            self,
                        ).sessions.spec_lookup(k)
                },
                Err(e) => {
                    &&& e == FlowError::Identity
                    &&& final(self).sessions == old(self).sessions
                    &&& match resolution {
                        Some(rid) => rid.did@ != pi.did@,
                        None => true,
                    }
                },
            },
    {
        let rid = match resolution {
            None => {
                return Err(FlowError::Identity);
            },
            Some(rid) => rid,
        };
        if !(rid.did == pi.did) {
            return Err(FlowError::Identity);
        }
        let refresh_clone = match &pi.refresh_token {
            Some(s) => Some(s.clone()),
            None => None,
        };
        let stored = OAuthSession {
            did: pi.did.clone(),
            access_token: pi.access_token.clone(),
            refresh_token: refresh_clone,
            issuer: pi.issuer.clone(),
            token_endpoint: pi.token_endpoint.clone(),
        };
        let session = OAuthSession {
            did: pi.did.clone(),
            access_token: pi.access_token,
            refresh_token: pi.refresh_token,
            issuer: pi.issuer,
            token_endpoint: pi.token_endpoint,
        };
        self.sessions.put(pi.did, stored);
        Ok((session, rid))
    }

    /// Borrow the stored session of a DID.
    pub fn get_session(&self, did: &String) -> (r: Option<&OAuthSession>)
        requires
            self.wf(),
        ensures
            match r {
                Some(s) => self.sessions.spec_lookup(did@) == Some(*s),
                None => self.sessions.spec_lookup(did@) is None,
            },
    {
        self.sessions.get(did)
    }
}

/// Build a flow engine for a deployment: the client metadata from the base
/// URL and the signing keys from an optional comma-separated PEM list.
pub fn create_oauth_client(base_url: &str, private_keys: Option<&str>) -> (r: OAuthFlow)
    ensures
        r.wf(),
        r.metadata.built_from(base_url@),
        match private_keys {
            None => r.keys.keys@.len() == 0,
            Some(s) => crate::keys::keys_match(
                r.keys.keys@,
                crate::keys::loaded_keys(crate::text::split_commas(s.spec_bytes()), 0),
            ),
        },
        forall|k: Seq<char>| r.states.spec_lookup(k) is None,
        forall|k: Seq<char>| r.sessions.spec_lookup(k) is None,
{
    let metadata = build_client_metadata(base_url);
    let keys = load_keys(private_keys);
    OAuthFlow::new(metadata, keys)
}

} // verus!
