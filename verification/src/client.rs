//! How the key that a host presents is judged.

use vstd::prelude::*;

verus! {

/// The client side of a session. It takes every host key as genuine, which
/// leaves a session open to whoever answers at the host's address: use it on
/// networks where that is an accepted risk.
#[derive(Debug, Clone, Copy, PartialEq, Eq, Structural)]
pub struct Client;

impl Client {
    /// Whether the host whose key has the fingerprint `fingerprint` is taken
    /// as genuine: always.
    pub fn check_server_key(&self, fingerprint: &str) -> (accepted: bool)
        ensures
            accepted,
    {
        true
    }
}

} // verus!
