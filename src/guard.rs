use vstd::prelude::*;

use crate::keys::KeyStore;
use crate::usage::{Counters, Operation};

verus! {

/// How a request to a protected route is classified.
#[derive(Clone, Copy, Debug, PartialEq, Eq, Structural)]
pub enum AuthDecision {
    /// The credential names a valid key: the request goes on to its handler.
    Authorized,
    /// The credential is missing, malformed or not a valid key.
    Unauthorized,
    /// The key store could not be consulted.
    InternalError,
}

/// Whether `credential`, the key carried in a request if it carries one,
/// names a key that `store` holds as valid.
pub open spec fn authorizes(store: KeyStore, credential: Option<Seq<char>>) -> bool {
    match credential {
        Some(t) => store.is_valid(t),
        None => false,
    }
}

/// The text of an optional credential.
pub open spec fn credential_view(credential: Option<&str>) -> Option<Seq<char>> {
    match credential {
        Some(t) => Some(t@),
        None => None,
    }
}

/// Classifies a request by its credential: authorized exactly when it carries
/// a valid key. The store is only read.
pub fn authorize(store: &KeyStore, credential: Option<&str>) -> (d: AuthDecision)
    ensures
        d == AuthDecision::Authorized <==> authorizes(*store, credential_view(credential)),
        d != AuthDecision::Authorized ==> d == AuthDecision::Unauthorized,
{
    match credential {
        Some(t) => if store.validate(t) {
            AuthDecision::Authorized
        } else {
            AuthDecision::Unauthorized
        },
        None => AuthDecision::Unauthorized,
    }
}

/// Serves a request to the counted operation `op` behind the key check: the
/// invocation is counted when the request is authorized, and a rejected
/// request leaves every count as it was.
pub fn serve_counted(
    store: &KeyStore,
    counters: &mut Counters,
    credential: Option<&str>,
    op: Operation,
) -> (d: AuthDecision)
    requires
        old(counters).spec_count(op) < u64::MAX,
    ensures
        d == AuthDecision::Authorized <==> authorizes(*store, credential_view(credential)),
        d != AuthDecision::Authorized ==> d == AuthDecision::Unauthorized,
        d == AuthDecision::Authorized ==> old(counters).records(*final(counters), op),
        d != AuthDecision::Authorized ==> *final(counters) == *old(counters),
{
    let d = authorize(store, credential);
    if d == AuthDecision::Authorized {
        counters.increment(op);
    }
    d
}

} // verus!
