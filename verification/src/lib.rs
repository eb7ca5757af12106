use vstd::prelude::*;

pub mod b64;
pub mod crypto;
pub mod flow;
pub mod keys;
pub mod metadata;
pub mod resolver;
pub mod store;
pub mod text;

verus! {

/// The errors that the authorization flow surfaces to its caller.
#[derive(Clone, Copy, Debug, PartialEq, Eq, Structural)]
pub enum FlowError {
    /// Identity lookup failed or the handle claim did not match.
    Resolution,
    /// A valid authorize request cannot be constructed.
    Authorization,
    /// The state token is missing, expired or already consumed.
    InvalidState,
    /// The remote token exchange rejected the code or the client assertion.
    Callback,
    /// The identity behind a successful exchange could not be verified.
    Identity,
}

impl FlowError {
    /// A short stable label for logging at the web boundary.
    pub fn label(&self) -> (r: &'static str)
        ensures
            r@ == self.label_spec(),
    {
        match self {
            FlowError::Resolution => "resolution error",
            FlowError::Authorization => "authorization error",
            FlowError::InvalidState => "invalid state error",
            FlowError::Callback => "callback error",
            FlowError::Identity => "identity error",
        }
    }

    pub open spec fn label_spec(&self) -> Seq<char> {
        match self {
            FlowError::Resolution => "resolution error"@,
            FlowError::Authorization => "authorization error"@,
            FlowError::InvalidState => "invalid state error"@,
            FlowError::Callback => "callback error"@,
            FlowError::Identity => "identity error"@,
        }
    }
}

} // verus!
