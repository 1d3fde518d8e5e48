use vstd::prelude::*;
use vstd::rwlock::{RwLock, RwLockPredicate};

use crate::guard::{authorizes, credential_view, AuthDecision};
use crate::keys::{KeyError, KeyStore};

verus! {

/// What the lock around a shared key store holds at every moment.
pub struct StoreInvariant;

impl RwLockPredicate<KeyStore> for StoreInvariant {
    open spec fn inv(self, v: KeyStore) -> bool {
        v.wf()
    }
}

/// A key store shared by concurrent request handlers. Every operation holds
/// the lock for the length of one in-memory step of the store, so the
/// operations take effect one at a time, and the store is well formed at
/// every moment.
pub struct SharedKeyStore {
    lock: RwLock<KeyStore, StoreInvariant>,
}

impl SharedKeyStore {
    /// A shared store that has issued nothing.
    pub fn new() -> (s: SharedKeyStore) {
        SharedKeyStore { lock: RwLock::new(KeyStore::new(), Ghost(StoreInvariant)) }
    }

    /// Issues a key, given with the store just before and just after the
    /// moment at which the issuance took effect.
    pub fn issue(&self) -> (r: (Result<String, KeyError>, Ghost<(KeyStore, KeyStore)>))
        ensures
            r.1@.0.wf(),
            r.1@.1.wf(),
            r.0 is Ok <==> r.1@.0.issued() < u64::MAX,
            match r.0 {
                Ok(t) => r.1@.0.issued_as(r.1@.1, t@),
                Err(e) => e == KeyError::Exhausted && r.1@.1@ == r.1@.0@,
            },
    {
        let (mut store, handle) = self.lock.acquire_write();
        let ghost before = store;
        let res = store.issue();
        let ghost after = store;
        handle.release_write(store);
        (res, Ghost((before, after)))
    }

    /// Whether `token` is a valid key, read at one moment, given with the
    /// store as it stood then. Reads may proceed side by side.
    pub fn validate(&self, token: &str) -> (r: (bool, Ghost<KeyStore>))
        ensures
            r.1@.wf(),
            r.0 == r.1@.is_valid(token@),
    {
        let handle = self.lock.acquire_read();
        let store = handle.borrow();
        let valid = store.validate(token);
        let ghost seen = *store;
        handle.release_read();
        (valid, Ghost(seen))
    }

    /// Revokes the key `token`, given with the store just before and just
    /// after the moment at which the request took effect.
    pub fn revoke(&self, token: &str) -> (r: (Result<(), KeyError>, Ghost<(KeyStore, KeyStore)>))
        ensures
            r.1@.0.wf(),
            r.1@.1.wf(),
            r.1@.0.revoked_as(r.1@.1, token@, r.0 is Ok),
            r.0 is Err ==> r.0 == Err::<(), KeyError>(KeyError::NotFound),
    {
        let (mut store, handle) = self.lock.acquire_write();
        let ghost before = store;
        let res = store.revoke(token);
        let ghost after = store;
        handle.release_write(store);
        (res, Ghost((before, after)))
    }

    /// Classifies a request by its credential, against the store as it stood
    /// at one moment: authorized exactly when it carries a key valid then.
    pub fn authorize(&self, credential: Option<&str>) -> (r: (AuthDecision, Ghost<KeyStore>))
        ensures
            r.1@.wf(),
            r.0 == AuthDecision::Authorized <==> authorizes(r.1@, credential_view(credential)),
            r.0 != AuthDecision::Authorized ==> r.0 == AuthDecision::Unauthorized,
    {
        let handle = self.lock.acquire_read();
        let store = handle.borrow();
        let d = crate::guard::authorize(store, credential);
        let ghost seen = *store;
        handle.release_read();
        (d, Ghost(seen))
    }
}

} // verus!
