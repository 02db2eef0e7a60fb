use vstd::prelude::*;

use crate::pending::{digest_set, PendingDigestSet};
use crate::types::{SuiError, TransactionDigest, VerifiedCertificate};

verus! {

/// The digests of a sequence of certificates, as a set.
pub open spec fn certificate_digests(certs: Seq<VerifiedCertificate>) -> Set<TransactionDigest> {
    Set::new(|d: TransactionDigest| exists|i: int| 0 <= i < certs.len() && certs[i].digest == d)
}

/// Registering certificates whose digests are all pending already leaves the
/// pending digests as they were.
pub proof fn lemma_reregistration_changes_nothing(
    pending: Set<TransactionDigest>,
    certs: Seq<VerifiedCertificate>,
)
    requires
        certificate_digests(certs).subset_of(pending),
    ensures
        pending.union(certificate_digests(certs)) == pending,
{
    assert(pending.union(certificate_digests(certs)) =~= pending);
}

/// Capability to register certificates for later execution.
pub trait PendCertificateForExecution {
    /// The digests that this capability holds as pending.
    spec fn registered(&self) -> Set<TransactionDigest>;

    /// Whether this capability records what it is given; one that does not
    /// accepts every certificate and changes nothing.
    spec fn records_certificates(&self) -> bool;

    /// Whether registration through this capability cannot fail.
    spec fn infallible(&self) -> bool;

    /// Registers each certificate's digest as pending. Registering a digest that
    /// is already pending is harmless. An infallible capability always succeeds.
    /// On success every digest is pending; on failure some may be, and no other
    /// digest is added or any removed.
    fn add_pending_certificates(&mut self, certs: Vec<VerifiedCertificate>) -> (r: Result<(), SuiError>)
        ensures
            old(self).infallible() ==> r is Ok,
            final(self).records_certificates() == old(self).records_certificates(),
            !old(self).records_certificates() ==> r is Ok && final(self).registered() == old(
                self,
            ).registered(),
            old(self).records_certificates() && r is Ok ==> final(self).registered() == old(
                self,
            ).registered().union(certificate_digests(certs@)),
            old(self).registered().subset_of(final(self).registered()),
            final(self).registered().subset_of(
                old(self).registered().union(certificate_digests(certs@)),
            ),
    ;
}

/// The registration path of the ledger: each certificate's digest joins the
/// pending set.
impl PendCertificateForExecution for PendingDigestSet {
    open spec fn registered(&self) -> Set<TransactionDigest> {
        self@
    }

    open spec fn records_certificates(&self) -> bool {
        true
    }

    open spec fn infallible(&self) -> bool {
        true
    }

    fn add_pending_certificates(&mut self, certs: Vec<VerifiedCertificate>) -> (r: Result<(), SuiError>) {
        let mut digests: Vec<TransactionDigest> = Vec::new();
        let mut i: usize = 0;
        while i < certs.len()
            invariant
                i <= certs@.len(),
                digests@.len() == i,
                forall|j: int| 0 <= j < i ==> digests@[j] == certs@[j].digest,
            decreases certs@.len() - i,
        {
            digests.push(certs[i].digest);
            i = i + 1;
        }
        self.add_pending_digests(&digests);
        proof {
            assert forall|d: TransactionDigest| digests@.contains(d) <==> certificate_digests(certs@).contains(d) by {
                if digests@.contains(d) {
                    let k = choose|k: int| 0 <= k < digests@.len() && digests@[k] == d;
                    assert(certs@[k].digest == d);
                }
                if certificate_digests(certs@).contains(d) {
                    let k = choose|k: int| 0 <= k < certs@.len() && certs@[k].digest == d;
                    assert(digests@[k] == d);
                }
            }
            assert(digest_set(digests@) =~= certificate_digests(certs@));
        }
        Ok(())
    }
}

/// A capability that accepts certificates and records nothing, for callers that
/// must supply one but do not need the certificates executed.
pub struct PendCertificateForExecutionNoop;

impl PendCertificateForExecution for PendCertificateForExecutionNoop {
    open spec fn registered(&self) -> Set<TransactionDigest> {
        Set::empty()
    }

    open spec fn records_certificates(&self) -> bool {
        false
    }

    open spec fn infallible(&self) -> bool {
        true
    }

    fn add_pending_certificates(&mut self, certs: Vec<VerifiedCertificate>) -> (r: Result<(), SuiError>) {
        Ok(())
    }
}

} // verus!
