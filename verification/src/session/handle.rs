//! The handle to an established browser automation session.

use vstd::prelude::*;

verus! {

#[verifier::external_type_specification]
#[verifier::external_body]
pub struct ExClient(fantoccini::client::Client);

/// Relies on fantoccini's derived `Clone` for `Client`: a clone is another
/// handle to the same session connection.
#[verifier::external_body]
pub(crate) fn clone_client(c: &fantoccini::client::Client) -> (r: fantoccini::client::Client)
    ensures
        r == *c,
{
    c.clone()
}

/// A shared reference to an active browser automation session. All remote
/// commands of a driver or an element go through the client it carries.
pub struct SessionHandle {
    pub client: fantoccini::client::Client,
}

impl SessionHandle {
    /// Wraps an established protocol client as a session handle.
    pub fn new(client: fantoccini::client::Client) -> (r: Self)
        ensures
            r.client == client,
    {
        SessionHandle { client }
    }
}

impl Clone for SessionHandle {
    fn clone(&self) -> (r: Self)
        ensures
            r == *self,
    {
        SessionHandle { client: clone_client(&self.client) }
    }
}

} // verus!
