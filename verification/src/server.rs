//! Handler-side state: the authentication context attached to a request and
//! the server values the HTTP layer instantiates.  The storage clients the
//! live server owns are constructed by the runner and passed down
//! explicitly; nothing here is a hidden process-wide singleton.

use vstd::prelude::*;

verus! {

/// Authentication information extracted from a request.
pub struct AuthContext {
    /// User identifier, such as an OAuth subject.
    pub subject: String,
    /// UUID-compatible numeric id.
    pub subject_id: u128,
    /// Granted scopes.
    pub scopes: Vec<String>,
}

impl AuthContext {
    /// An anonymous context: no subject, no scopes.
    pub fn anonymous() -> (r: AuthContext)
        ensures
            r.subject@.len() == 0,
            r.subject_id == 0,
            r.scopes@.len() == 0,
    {
        AuthContext { subject: String::new(), subject_id: 0, scopes: Vec::new() }
    }
}

/// The live server value the HTTP layer dispatches to.
pub struct Server {
}

impl Server {
    /// A fresh server value.
    pub fn new() -> (r: Server) {
        Server {  }
    }
}

/// A stub server for exercising the HTTP layer: every operation answers
/// with its default response.
pub struct TestServer {
}

} // verus!
