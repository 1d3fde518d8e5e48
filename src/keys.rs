use vstd::prelude::*;

use crate::token::{decimal, decimal_text, lemma_decimal_injective};

verus! {

/// Why a key store operation did not take place.
#[derive(Clone, Copy, Debug, PartialEq, Eq, Structural)]
pub enum KeyError {
    /// The token to revoke is not a currently valid key.
    NotFound,
    /// Every identifier has been used; no new key can be issued.
    Exhausted,
}

/// The set of currently valid API keys.
///
/// Each key is the decimal text of an identifier drawn from a counter that
/// only grows, so a key once revoked is never issued again and no two issued
/// keys are equal. A key is valid exactly while it is in the store.
pub struct KeyStore {
    tokens: Vec<String>,
    ids: Ghost<Seq<nat>>,
    next_id: u64,
}

impl View for KeyStore {
    type V = Set<Seq<char>>;

    /// The texts of the currently valid keys.
    closed spec fn view(&self) -> Set<Seq<char>> {
        Set::new(|t: Seq<char>| exists|k: int| 0 <= k < self.tokens.len() && #[trigger] self.tokens[k]@ == t)
    }
}

impl KeyStore {
    /// How many keys have been issued so far; the next key is the decimal
    /// text of this number.
    pub closed spec fn issued(&self) -> nat {
        self.next_id as nat
    }

    /// Keys are distinct, and each is the text of an identifier already used.
    pub closed spec fn wf(&self) -> bool {
        &&& self.ids@.len() == self.tokens.len()
        &&& forall|k: int|
            0 <= k < self.tokens.len() ==> #[trigger] self.tokens[k]@ == decimal(self.ids@[k])
                && self.ids@[k] < self.next_id
        &&& forall|j: int, k: int|
            0 <= j < self.tokens.len() && 0 <= k < self.tokens.len() && j != k
                ==> #[trigger] self.tokens[j]@ != #[trigger] self.tokens[k]@
    }

    /// Whether `t` is a currently valid key.
    pub open spec fn is_valid(&self, t: Seq<char>) -> bool {
        self@.contains(t)
    }

    /// `next` is `self` after issuing the key `t`.
    pub open spec fn issued_as(&self, next: KeyStore, t: Seq<char>) -> bool {
        &&& t == decimal(self.issued())
        &&& !self@.contains(t)
        &&& next@ == self@.insert(t)
        &&& next.issued() == self.issued() + 1
    }

    /// `next` is `self` after a request to revoke `t`, which succeeded when
    /// `ok` holds.
    pub open spec fn revoked_as(&self, next: KeyStore, t: Seq<char>, ok: bool) -> bool {
        &&& ok == self@.contains(t)
        &&& next@ == self@.remove(t)
        &&& next.issued() == self.issued()
    }

    /// An empty store that has issued nothing.
    pub fn new() -> (s: KeyStore)
        ensures
            s.wf(),
            s@ == Set::<Seq<char>>::empty(),
            s.issued() == 0,
    {
        let s = KeyStore { tokens: Vec::new(), ids: Ghost(Seq::empty()), next_id: 0 };
        assert(s@ =~= Set::<Seq<char>>::empty());
        s
    }

    /// The index of the key `t`, if it is valid.
    fn position(&self, t: &String) -> (r: Option<usize>)
        ensures
            match r {
                Some(i) => i < self.tokens.len() && self.tokens[i as int]@ == t@,
                None => !self@.contains(t@),
            },
    {
        let mut i: usize = 0;
        while i < self.tokens.len()
            invariant
                i <= self.tokens.len(),
                forall|k: int| 0 <= k < i ==> #[trigger] self.tokens[k]@ != t@,
            decreases self.tokens.len() - i,
        {
            if self.tokens[i] == *t {
                return Some(i);
            }
            i = i + 1;
        }
        None
    }

    /// Whether `token` is a currently valid key. Reads the store only.
    pub fn validate(&self, token: &str) -> (r: bool)
        ensures
            r == self.is_valid(token@),
    {
        let t = token.to_owned();
        self.position(&t).is_some()
    }

    /// Issues a new key and adds it to the store. Fails only when every
    /// identifier has been used, and then changes nothing.
    pub fn issue(&mut self) -> (r: Result<String, KeyError>)
        requires
            old(self).wf(),
        ensures
            final(self).wf(),
            r is Ok <==> old(self).issued() < u64::MAX,
            match r {
                Ok(t) => old(self).issued_as(*final(self), t@),
                Err(e) => e == KeyError::Exhausted && final(self)@ == old(self)@
                    && final(self).issued() == old(self).issued(),
            },
    {
        if self.next_id == u64::MAX {
            return Err(KeyError::Exhausted);
        }
        let id = self.next_id;
        let t = decimal_text(id);
        assert forall|k: int| 0 <= k < self.tokens.len() implies #[trigger] self.tokens[k]@ != t@ by {
            if self.tokens[k]@ == t@ {
                lemma_decimal_injective(self.ids@[k], id as nat);
            }
        }
        let ghost before = self@;
        let ghost old_tokens = self.tokens@;
        self.tokens.push(t.clone());
        self.ids = Ghost(self.ids@.push(id as nat));
        self.next_id = id + 1;
        assert(self@ =~= before.insert(t@)) by {
            assert(self.tokens[self.tokens.len() - 1]@ == t@);
            assert forall|s: Seq<char>| before.contains(s) implies self@.contains(s) by {
                let k = choose|k: int| 0 <= k < old_tokens.len() && #[trigger] old_tokens[k]@ == s;
                assert(self.tokens[k]@ == s);
            }
            assert forall|s: Seq<char>| self@.contains(s) && s != t@ implies before.contains(s) by {
                let k = choose|k: int| 0 <= k < self.tokens.len() && #[trigger] self.tokens[k]@ == s;
                assert(old_tokens[k]@ == s);
            }
        }
        Ok(t)
    }

    /// Revokes the key `token`. Fails with `NotFound`, changing nothing, when
    /// `token` is not a valid key.
    pub fn revoke(&mut self, token: &str) -> (r: Result<(), KeyError>)
        requires
            old(self).wf(),
        ensures
            final(self).wf(),
            old(self).revoked_as(*final(self), token@, r is Ok),
            r is Err ==> r == Err::<(), KeyError>(KeyError::NotFound),
    {
        let t = token.to_owned();
        match self.position(&t) {
            None => {
                assert(self@.remove(t@) =~= self@);
                Err(KeyError::NotFound)
            },
            Some(i) => {
                let ghost before = self@;
                let ghost old_tokens = self.tokens@;
                self.tokens.remove(i);
                self.ids = Ghost(self.ids@.remove(i as int));
                assert(self@ =~= before.remove(t@)) by {
                    assert forall|s: Seq<char>| before.remove(t@).contains(s) implies self@.contains(s) by {
                        let k = choose|k: int| 0 <= k < old_tokens.len() && #[trigger] old_tokens[k]@ == s;
                        if k < i {
                            assert(self.tokens[k]@ == s);
                        } else {
                            assert(k != i);
                            assert(self.tokens[k - 1]@ == s);
                        }
                    }
                    assert forall|s: Seq<char>| self@.contains(s) implies before.remove(t@).contains(s) by {
                        let k = choose|k: int| 0 <= k < self.tokens.len() && #[trigger] self.tokens[k]@ == s;
                        if k < i {
                            assert(old_tokens[k]@ == s);
                            assert(old_tokens[k]@ != old_tokens[i as int]@);
                        } else {
                            assert(old_tokens[k + 1]@ == s);
                            assert(old_tokens[k + 1]@ != old_tokens[i as int]@);
                        }
                    }
                }
                Ok(())
            },
        }
    }
}

/// A key is valid right after it is issued.
pub proof fn lemma_valid_after_issue(before: KeyStore, after: KeyStore, t: Seq<char>)
    requires
        before.issued_as(after, t),
    ensures
        after.is_valid(t),
{
}

/// A key is not valid right after it has been revoked successfully.
pub proof fn lemma_invalid_after_revoke(before: KeyStore, after: KeyStore, t: Seq<char>)
    requires
        before.revoked_as(after, t, true),
    ensures
        !after.is_valid(t),
{
}

/// A text that was never issued is not a valid key.
pub proof fn lemma_never_issued_invalid(s: KeyStore, t: Seq<char>)
    requires
        s.wf(),
        forall|i: nat| i < s.issued() ==> #[trigger] decimal(i) != t,
    ensures
        !s.is_valid(t),
{
    if s@.contains(t) {
        let k = choose|k: int| 0 <= k < s.tokens.len() && #[trigger] s.tokens[k]@ == t;
        assert(s.tokens[k]@ == decimal(s.ids@[k]));
    }
}

proof fn lemma_issue_run_prefix(stores: Seq<KeyStore>, keys: Seq<Seq<char>>, n: int)
    requires
        stores.len() == keys.len() + 1,
        forall|k: int| 0 <= k < keys.len() ==> #[trigger] stores[k].issued_as(stores[k + 1], keys[k]),
        0 <= n <= keys.len(),
    ensures
        stores[n].issued() == stores[0].issued() + n,
        forall|k: int| 0 <= k < n ==> stores[n].is_valid(#[trigger] keys[k]),
    decreases n,
{
    if n > 0 {
        lemma_issue_run_prefix(stores, keys, n - 1);
        let m = n - 1;
        assert(stores[m].issued_as(stores[m + 1], keys[m]));
    }
}

/// Issuing keys one after another, with no revocation in between, gives
/// pairwise distinct keys that are all valid together at the end.
pub proof fn lemma_issued_keys_distinct(stores: Seq<KeyStore>, keys: Seq<Seq<char>>)
    requires
        stores.len() == keys.len() + 1,
        forall|k: int| 0 <= k < keys.len() ==> #[trigger] stores[k].issued_as(stores[k + 1], keys[k]),
    ensures
        forall|j: int, k: int| 0 <= j < k < keys.len() ==> #[trigger] keys[j] != #[trigger] keys[k],
        forall|k: int| 0 <= k < keys.len() ==> stores.last().is_valid(#[trigger] keys[k]),
{
    lemma_issue_run_prefix(stores, keys, keys.len() as int);
    assert forall|j: int, k: int| 0 <= j < k < keys.len() implies #[trigger] keys[j] != #[trigger] keys[k] by {
        lemma_issue_run_prefix(stores, keys, k);
        assert(stores[k].issued_as(stores[k + 1], keys[k]));
    }
}

/// Of two requests in a row to revoke the same key, at most one succeeds:
/// the first succeeds exactly when the key was valid, the second never does.
pub proof fn lemma_revoke_twice(
    s0: KeyStore,
    s1: KeyStore,
    s2: KeyStore,
    t: Seq<char>,
    first: bool,
    second: bool,
)
    requires
        s0.revoked_as(s1, t, first),
        s1.revoked_as(s2, t, second),
    ensures
        first == s0.is_valid(t),
        !second,
        !(first && second),
{
}

} // verus!
