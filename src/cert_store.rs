use vstd::prelude::*;

use crate::types::{same_digest, TransactionDigest, VerifiedCertificate};

verus! {

/// Verified certificates, keyed by the epoch they belong to and their digest.
pub struct CertificateStore {
    entries: Vec<(u64, VerifiedCertificate)>,
}

/// The map that a list of stored certificates denotes: a later entry under the
/// same key replaces an earlier one.
pub open spec fn certificate_map(s: Seq<(u64, VerifiedCertificate)>) -> Map<
    (u64, TransactionDigest),
    VerifiedCertificate,
>
    decreases s.len(),
{
    if s.len() == 0 {
        Map::empty()
    } else {
        certificate_map(s.drop_last()).insert((s.last().0, s.last().1.digest), s.last().1)
    }
}

impl View for CertificateStore {
    type V = Map<(u64, TransactionDigest), VerifiedCertificate>;

    closed spec fn view(&self) -> Map<(u64, TransactionDigest), VerifiedCertificate> {
        certificate_map(self.entries@)
    }
}

impl CertificateStore {
    /// An empty store.
    pub fn new() -> (r: CertificateStore)
        ensures
            r@ == Map::<(u64, TransactionDigest), VerifiedCertificate>::empty(),
    {
        CertificateStore { entries: Vec::new() }
    }

    /// Stores `cert` under `epoch` and its own digest, replacing what was there.
    pub fn insert_cert(&mut self, epoch: u64, cert: VerifiedCertificate)
        ensures
            final(self)@ == old(self)@.insert((epoch, cert.digest), cert),
    {
        self.entries.push((epoch, cert));
        proof {
            assert(self.entries@.drop_last() =~= old(self).entries@);
        }
    }

    /// The certificate stored under `epoch` and `digest`, if any.
    pub fn get_cert(&self, epoch: u64, digest: &TransactionDigest) -> (r: Option<&VerifiedCertificate>)
        ensures
            r is Some <==> self@.contains_key((epoch, *digest)),
            r matches Some(c) ==> *c == self@[(epoch, *digest)],
    {
        let ghost k = (epoch, *digest);
        let mut i: usize = self.entries.len();
        proof {
            assert(self.entries@.subrange(0, i as int) =~= self.entries@);
        }
        while i > 0
            invariant
                i <= self.entries@.len(),
                k == (epoch, *digest),
                certificate_map(self.entries@.subrange(0, i as int)).contains_key(k)
                    == self@.contains_key(k),
                self@.contains_key(k) ==> certificate_map(self.entries@.subrange(0, i as int))[k]
                    == self@[k],
            decreases i,
        {
            let ghost prefix = self.entries@.subrange(0, i as int);
            proof {
                assert(prefix.drop_last() =~= self.entries@.subrange(0, i - 1));
            }
            let entry = &self.entries[i - 1];
            if entry.0 == epoch && same_digest(&entry.1.digest, digest) {
                proof {
                    assert(prefix.len() == i);
                    assert(prefix.last() == *entry);
                    assert((entry.0, entry.1.digest) == k);
                    assert(certificate_map(prefix) == certificate_map(prefix.drop_last()).insert(k, entry.1));
                }
                return Some(&entry.1);
            }
            i = i - 1;
        }
        None
    }
}

} // verus!
