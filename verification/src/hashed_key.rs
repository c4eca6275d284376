//! A key string paired with a 64-bit hash computed once at construction.
//!
//! Equality is by the string alone, so two keys with colliding hashes still
//! compare unequal; the hash is an accelerator, never an identity.

use std::hash::{Hash, Hasher};

use vstd::prelude::*;

verus! {

/// A key string together with its precomputed 64-bit hash.
#[derive(Debug, Clone)]
pub struct HashedKey {
    pub key: String,
    pub hash: u64,
}

/// Relies on `ahash::AHasher::default()`, whose keys are fixed for the whole
/// process run: within one run equal strings hash alike, but the seed is drawn
/// anew each run, so nothing is stated of the value returned.
#[verifier::external_body]
fn hash_string(key: &String) -> u64 {
    let mut hasher = ahash::AHasher::default();
    key.hash(&mut hasher);
    hasher.finish()
}

impl HashedKey {
    pub fn new(key: String) -> (r: HashedKey)
        ensures
            r.key@ == key@,
    {
        let hash = hash_string(&key);
        HashedKey { key, hash }
    }

    /// The precomputed hash, as stored.
    pub fn hash_value(&self) -> (h: u64)
        ensures
            h == self.hash,
    {
        self.hash
    }
}

impl PartialEq for HashedKey {
    fn eq(&self, other: &HashedKey) -> (r: bool) {
        self.key == other.key
    }
}

impl vstd::std_specs::cmp::PartialEqSpecImpl for HashedKey {
    open spec fn obeys_eq_spec() -> bool {
        true
    }

    open spec fn eq_spec(&self, other: &HashedKey) -> bool {
        self.key@ == other.key@
    }
}

/// Two hashed keys are equal exactly when their key strings are equal; in
/// particular, keys built from equal strings are equal, and a hash collision
/// between distinct strings never makes them equal.
pub proof fn lemma_hashed_key_eq_is_string_eq(a: HashedKey, b: HashedKey)
    ensures
        vstd::std_specs::cmp::PartialEqSpec::eq_spec(&a, &b) <==> a.key@ == b.key@,
{
}

} // verus!
