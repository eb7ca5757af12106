//! The client metadata document: the immutable description of this OAuth
//! client, constructed once from the deployment base URL.
use vstd::prelude::*;
use vstd::string::StringExecFns;

verus! {

/// Where the client metadata document is served.
pub fn client_metadata_path() -> (r: &'static str)
    ensures
        r@ == "/oauth/client-metadata.json"@,
{
    "/oauth/client-metadata.json"
}

/// Where the public JWK set is served.
pub fn jwks_path() -> (r: &'static str)
    ensures
        r@ == "/oauth/jwks.json"@,
{
    "/oauth/jwks.json"
}

/// Where the authorization server redirects back to.
pub fn callback_path() -> (r: &'static str)
    ensures
        r@ == "/oauth/callback"@,
{
    "/oauth/callback"
}

/// The immutable description of this OAuth client. Built once at startup;
/// the flow engine never changes it, so the remote server may cache the
/// document it is served from.
pub struct ClientMetadata {
    /// The client identifier: the URL the metadata document is served at.
    pub client_id: String,
    /// The deployment base URL.
    pub client_uri: String,
    /// The sole redirect URI.
    pub redirect_uri: String,
    /// Where the public JWK set is served.
    pub jwks_uri: String,
    /// The requested scopes, space-separated.
    pub scope: String,
}

impl ClientMetadata {
    /// The fields a metadata document built from `base` carries.
    pub open spec fn built_from(&self, base: Seq<char>) -> bool {
        &&& self.client_id@ == base + "/oauth/client-metadata.json"@
        &&& self.client_uri@ == base
        &&& self.redirect_uri@ == base + "/oauth/callback"@
        &&& self.jwks_uri@ == base + "/oauth/jwks.json"@
        &&& self.scope@ == "atproto transition:generic"@
    }
}

/// Build the client metadata for a deployment base URL. The token endpoint
/// auth method is `private_key_jwt` with `ES256`, and the sole grant type
/// is the authorization code; both are fixed by this client, not fields.
pub fn build_client_metadata(base_url: &str) -> (r: ClientMetadata)
    ensures
        r.built_from(base_url@),
{
    let mut client_id = base_url.to_owned();
    client_id.append(client_metadata_path());
    let mut redirect_uri = base_url.to_owned();
    redirect_uri.append(callback_path());
    let mut jwks_uri = base_url.to_owned();
    jwks_uri.append(jwks_path());
    ClientMetadata {
        client_id,
        client_uri: base_url.to_owned(),
        redirect_uri,
        jwks_uri,
        scope: "atproto transition:generic".to_owned(),
    }
}

} // verus!
