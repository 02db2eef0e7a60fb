use vstd::prelude::*;

use crate::types::{same_digest, TransactionDigest};

verus! {

/// The set of digests whose certificates were registered and are not yet known
/// to be executed.
pub struct PendingDigestSet {
    digests: Vec<TransactionDigest>,
}

/// The digests listed in a sequence, as a set.
pub open spec fn digest_set(ds: Seq<TransactionDigest>) -> Set<TransactionDigest> {
    Set::new(|d: TransactionDigest| ds.contains(d))
}

/// Appending one digest adds exactly that digest to the listed set.
proof fn lemma_digest_set_push(ds: Seq<TransactionDigest>, x: TransactionDigest)
    ensures
        digest_set(ds.push(x)) == digest_set(ds).insert(x),
{
    let p = ds.push(x);
    assert forall|d: TransactionDigest| p.contains(d) <==> (ds.contains(d) || d == x) by {
        if p.contains(d) {
            let k = choose|k: int| 0 <= k < p.len() && p[k] == d;
            if k < ds.len() {
                assert(ds[k] == d);
            }
        }
        if ds.contains(d) {
            let k = choose|k: int| 0 <= k < ds.len() && ds[k] == d;
            assert(p[k] == d);
        }
        if d == x {
            assert(p[ds.len() as int] == d);
        }
    }
    assert(digest_set(p) =~= digest_set(ds).insert(x));
}

impl View for PendingDigestSet {
    type V = Set<TransactionDigest>;

    closed spec fn view(&self) -> Set<TransactionDigest> {
        digest_set(self.digests@)
    }
}

impl PendingDigestSet {
    /// An empty set.
    pub fn new() -> (r: PendingDigestSet)
        ensures
            r@ == Set::<TransactionDigest>::empty(),
    {
        let r = PendingDigestSet { digests: Vec::new() };
        proof {
            assert(r@ =~= Set::<TransactionDigest>::empty());
        }
        r
    }

    /// Whether `digest` is pending.
    pub fn contains(&self, digest: &TransactionDigest) -> (r: bool)
        ensures
            r == self@.contains(*digest),
    {
        let mut i: usize = 0;
        while i < self.digests.len()
            invariant
                i <= self.digests@.len(),
                forall|j: int| 0 <= j < i ==> self.digests@[j] != *digest,
            decreases self.digests@.len() - i,
        {
            if same_digest(&self.digests[i], digest) {
                return true;
            }
            i = i + 1;
        }
        false
    }

    /// Records `digest` as pending; recording a pending digest again changes nothing.
    pub fn insert(&mut self, digest: TransactionDigest)
        ensures
            final(self)@ == old(self)@.insert(digest),
    {
        if !self.contains(&digest) {
            proof {
                lemma_digest_set_push(self.digests@, digest);
            }
            self.digests.push(digest);
        } else {
            assert(self@ =~= old(self)@.insert(digest));
        }
    }

    /// Removes `digest`; removing a digest that is not pending changes nothing.
    pub fn remove(&mut self, digest: &TransactionDigest)
        ensures
            final(self)@ == old(self)@.remove(*digest),
    {
        let mut kept: Vec<TransactionDigest> = Vec::new();
        let mut i: usize = 0;
        proof {
            assert(digest_set(kept@) =~= digest_set(self.digests@.subrange(0, 0)).remove(*digest));
        }
        while i < self.digests.len()
            invariant
                i <= self.digests@.len(),
                *self == *old(self),
                digest_set(kept@) == digest_set(self.digests@.subrange(0, i as int)).remove(*digest),
            decreases self.digests@.len() - i,
        {
            let d = self.digests[i];
            proof {
                assert(self.digests@.subrange(0, i + 1) =~= self.digests@.subrange(0, i as int).push(d));
                lemma_digest_set_push(self.digests@.subrange(0, i as int), d);
                lemma_digest_set_push(kept@, d);
            }
            if !same_digest(&d, digest) {
                kept.push(d);
            }
            proof {
                assert(digest_set(kept@) =~= digest_set(self.digests@.subrange(0, i + 1)).remove(*digest));
            }
            i = i + 1;
        }
        proof {
            assert(self.digests@.subrange(0, i as int) =~= self.digests@);
            assert(digest_set(kept@) =~= old(self)@.remove(*digest));
        }
        self.digests = kept;
        proof {
            assert(self@ =~= old(self)@.remove(*digest));
        }
    }

    /// Records every digest of `digests` as pending.
    pub fn add_pending_digests(&mut self, digests: &Vec<TransactionDigest>)
        ensures
            final(self)@ == old(self)@.union(digest_set(digests@)),
    {
        let mut i: usize = 0;
        while i < digests.len()
            invariant
                i <= digests@.len(),
                self@ == old(self)@.union(digest_set(digests@.subrange(0, i as int))),
            decreases digests@.len() - i,
        {
            proof {
                assert(digests@.subrange(0, i + 1) =~= digests@.subrange(0, i as int).push(digests@[i as int]));
                lemma_digest_set_push(digests@.subrange(0, i as int), digests@[i as int]);
            }
            self.insert(digests[i]);
            i = i + 1;
        }
        proof {
            assert(digests@.subrange(0, i as int) =~= digests@);
        }
    }

    /// Removes every digest of `digests` from the set.
    pub fn remove_pending_digests(&mut self, digests: &Vec<TransactionDigest>)
        ensures
            final(self)@ == old(self)@.difference(digest_set(digests@)),
    {
        let mut i: usize = 0;
        while i < digests.len()
            invariant
                i <= digests@.len(),
                self@ == old(self)@.difference(digest_set(digests@.subrange(0, i as int))),
            decreases digests@.len() - i,
        {
            proof {
                assert(digests@.subrange(0, i + 1) =~= digests@.subrange(0, i as int).push(digests@[i as int]));
                lemma_digest_set_push(digests@.subrange(0, i as int), digests@[i as int]);
            }
            self.remove(&digests[i]);
            i = i + 1;
        }
        proof {
            assert(digests@.subrange(0, i as int) =~= digests@);
        }
    }
}

} // verus!
