use vstd::prelude::*;

verus! {

/// Length in bytes of a transaction digest and of a validator public key.
pub const DIGEST_LENGTH: usize = 32;

/// Content hash that identifies a certificate.
#[derive(Clone, Copy, Debug, PartialEq, Eq, Hash)]
pub struct TransactionDigest(pub [u8; 32]);

/// A validator's public key, in its fixed-size byte form.
#[derive(Clone, Copy, Debug, PartialEq, Eq, Hash)]
pub struct PublicKeyBytes(pub [u8; 32]);

/// Validators are identified by their public key.
pub type AuthorityName = PublicKeyBytes;

/// Errors reported by the collaborators of the driver and of the epoch controller.
#[derive(Clone, Copy, Debug, PartialEq, Eq)]
pub enum SuiError {
    /// A store or the ledger failed on I/O.
    Storage,
    /// A digest is pending but its certificate is absent from the store.
    CertificateNotFound,
    /// Applying a certificate to the ledger failed.
    Execution,
    /// The on-chain system state could not be fetched.
    EpochFetch,
    /// The new epoch's committee could not be persisted.
    EpochPersist,
}

/// A transaction together with a quorum of validator signatures, already verified.
#[derive(Clone, Debug)]
pub struct VerifiedCertificate {
    pub digest: TransactionDigest,
    pub transaction: Vec<u8>,
    pub signatures: Vec<Vec<u8>>,
}

/// What the system state declares of one validator of the next epoch.
#[derive(Clone, Debug)]
pub struct ValidatorMetadata {
    pub pubkey_bytes: Vec<u8>,
    pub next_epoch_stake: u64,
}

/// The validators part of the on-chain system state.
#[derive(Clone, Debug)]
pub struct ValidatorSet {
    pub next_epoch_validators: Vec<ValidatorMetadata>,
}

/// The authoritative on-chain system-state object.
#[derive(Clone, Debug)]
pub struct SuiSystemState {
    pub epoch: u64,
    pub validators: ValidatorSet,
}

/// Byte-for-byte comparison of two digests.
pub fn same_digest(a: &TransactionDigest, b: &TransactionDigest) -> (r: bool)
    ensures
        r == (*a == *b),
{
    let mut i: usize = 0;
    while i < DIGEST_LENGTH
        invariant
            i <= DIGEST_LENGTH,
            forall|j: int| 0 <= j < i ==> a.0[j] == b.0[j],
        decreases DIGEST_LENGTH - i,
    {
        if a.0[i] != b.0[i] {
            return false;
        }
        i = i + 1;
    }
    proof {
        broadcast use vstd::array::group_array_axioms;
        assert(a.0 =~= b.0);
    }
    true
}

/// Byte-for-byte comparison of two public keys.
pub fn same_key(a: &PublicKeyBytes, b: &PublicKeyBytes) -> (r: bool)
    ensures
        r == (a.0@ == b.0@),
{
    let mut i: usize = 0;
    while i < DIGEST_LENGTH
        invariant
            i <= DIGEST_LENGTH,
            forall|j: int| 0 <= j < i ==> a.0@[j] == b.0@[j],
        decreases DIGEST_LENGTH - i,
    {
        if a.0[i] != b.0[i] {
            return false;
        }
        i = i + 1;
    }
    proof {
        assert(a.0@ =~= b.0@);
    }
    true
}

impl PublicKeyBytes {
    /// Decodes a public key from its declared bytes: exactly 32 bytes are accepted.
    pub fn try_from_bytes(bytes: &Vec<u8>) -> (r: Option<PublicKeyBytes>)
        ensures
            r is Some <==> bytes@.len() == DIGEST_LENGTH,
            r matches Some(k) ==> k.0@ == bytes@,
    {
        if bytes.len() != DIGEST_LENGTH {
            return None;
        }
        let mut key: [u8; 32] = [0u8; 32];
        let mut i: usize = 0;
        while i < DIGEST_LENGTH
            invariant
                i <= DIGEST_LENGTH,
                bytes@.len() == DIGEST_LENGTH,
                key@.len() == DIGEST_LENGTH,
                forall|j: int| 0 <= j < i ==> key@[j] == bytes@[j],
            decreases DIGEST_LENGTH - i,
        {
            key[i] = bytes[i];
            i = i + 1;
        }
        proof {
            assert(key@ =~= bytes@);
        }
        Some(PublicKeyBytes(key))
    }
}

} // verus!
