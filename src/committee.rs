use vstd::prelude::*;

use crate::keyed::{keyed_view, unique_keys, upsert};
use crate::types::{AuthorityName, PublicKeyBytes, SuiSystemState, ValidatorMetadata, DIGEST_LENGTH};

verus! {

/// The validators of one epoch and their voting stake.
pub struct Committee {
    pub epoch: u64,
    pub voting_rights: Vec<(AuthorityName, u64)>,
}

impl Committee {
    /// The stake of each validator, keyed by the bytes of its public key.
    pub open spec fn votes(&self) -> Map<Seq<u8>, u64> {
        keyed_view(self.voting_rights@)
    }

    /// Each validator appears once.
    pub open spec fn wf(&self) -> bool {
        unique_keys(self.voting_rights@)
    }

    /// The committee of `epoch` with the given stakes; a later entry for a
    /// validator replaces an earlier one.
    pub fn new(epoch: u64, votes: Vec<(AuthorityName, u64)>) -> (r: Committee)
        ensures
            r.wf(),
            r.epoch == epoch,
            r.votes() == keyed_view(votes@),
    {
        let mut rights: Vec<(AuthorityName, u64)> = Vec::new();
        let mut i: usize = 0;
        proof {
            assert(keyed_view(votes@.subrange(0, 0)) =~= Map::<Seq<u8>, u64>::empty());
        }
        while i < votes.len()
            invariant
                i <= votes@.len(),
                unique_keys(rights@),
                keyed_view(rights@) == keyed_view(votes@.subrange(0, i as int)),
            decreases votes@.len() - i,
        {
            proof {
                assert(votes@.subrange(0, i + 1).drop_last() =~= votes@.subrange(0, i as int));
            }
            upsert(&mut rights, votes[i].0, votes[i].1);
            i = i + 1;
        }
        proof {
            assert(votes@.subrange(0, i as int) =~= votes@);
        }
        Committee { epoch, voting_rights: rights }
    }

    /// The stake of the validator `name`, if it belongs to the committee.
    pub fn stake_of(&self, name: &AuthorityName) -> (r: Option<u64>)
        requires
            self.wf(),
        ensures
            r is Some <==> self.votes().contains_key(name.0@),
            r matches Some(s) ==> s == self.votes()[name.0@],
    {
        let mut i: usize = self.voting_rights.len();
        proof {
            assert(self.voting_rights@.subrange(0, i as int) =~= self.voting_rights@);
        }
        while i > 0
            invariant
                i <= self.voting_rights@.len(),
                keyed_view(self.voting_rights@.subrange(0, i as int)).contains_key(name.0@)
                    == self.votes().contains_key(name.0@),
                self.votes().contains_key(name.0@) ==> keyed_view(
                    self.voting_rights@.subrange(0, i as int),
                )[name.0@] == self.votes()[name.0@],
            decreases i,
        {
            let ghost prefix = self.voting_rights@.subrange(0, i as int);
            proof {
                assert(prefix.drop_last() =~= self.voting_rights@.subrange(0, i - 1));
                assert(prefix.last() == self.voting_rights@[i - 1]);
            }
            let entry = &self.voting_rights[i - 1];
            if crate::types::same_key(&entry.0, name) {
                return Some(entry.1);
            }
            i = i - 1;
        }
        None
    }

    /// Number of validators in the committee.
    pub fn size(&self) -> (r: usize)
        requires
            self.wf(),
        ensures
            r == self.votes().len(),
    {
        proof {
            lemma_keyed_view_len(self.voting_rights@);
        }
        self.voting_rights.len()
    }
}

/// Every declared public key has the length of a key.
pub open spec fn keys_decodable(vals: Seq<ValidatorMetadata>) -> bool {
    forall|i: int| 0 <= i < vals.len() ==> #[trigger] vals[i].pubkey_bytes@.len() == DIGEST_LENGTH
}

/// No two validators declare the same public key.
pub open spec fn distinct_keys(vals: Seq<ValidatorMetadata>) -> bool {
    forall|i: int, j: int|
        0 <= i < j < vals.len() ==> vals[i].pubkey_bytes@ != vals[j].pubkey_bytes@
}

/// The next epoch's stakes as the validators declare them, keyed by public key;
/// a later declaration for a key replaces an earlier one.
pub open spec fn next_epoch_votes(vals: Seq<ValidatorMetadata>) -> Map<Seq<u8>, u64>
    decreases vals.len(),
{
    if vals.len() == 0 {
        Map::empty()
    } else {
        next_epoch_votes(vals.drop_last()).insert(
            vals.last().pubkey_bytes@,
            vals.last().next_epoch_stake,
        )
    }
}

/// The committee of the epoch after the one that `state` reports, made of the
/// validators it declares for that epoch with their next-epoch stake.
pub fn next_epoch_committee(state: &SuiSystemState) -> (r: Committee)
    requires
        state.epoch < u64::MAX,
        keys_decodable(state.validators.next_epoch_validators@),
    ensures
        r.wf(),
        r.epoch == state.epoch + 1,
        r.votes() == next_epoch_votes(state.validators.next_epoch_validators@),
{
    let vals = &state.validators.next_epoch_validators;
    let mut rights: Vec<(AuthorityName, u64)> = Vec::new();
    let mut i: usize = 0;
    proof {
        assert(keyed_view(rights@) =~= next_epoch_votes(vals@.subrange(0, 0)));
    }
    while i < vals.len()
        invariant
            i <= vals@.len(),
            keys_decodable(vals@),
            unique_keys(rights@),
            keyed_view(rights@) == next_epoch_votes(vals@.subrange(0, i as int)),
        decreases vals@.len() - i,
    {
        proof {
            assert(vals@.subrange(0, i + 1).drop_last() =~= vals@.subrange(0, i as int));
            assert(vals@[i as int].pubkey_bytes@.len() == DIGEST_LENGTH);
        }
        match PublicKeyBytes::try_from_bytes(&vals[i].pubkey_bytes) {
            Some(key) => {
                upsert(&mut rights, key, vals[i].next_epoch_stake);
            },
            None => {},
        }
        i = i + 1;
    }
    proof {
        assert(vals@.subrange(0, i as int) =~= vals@);
    }
    Committee { epoch: state.epoch + 1, voting_rights: rights }
}

/// When the validators declare distinct keys, the next epoch's votes hold
/// exactly their (key, stake) pairs: every declared key with its declared stake,
/// and no other key.
pub proof fn lemma_next_epoch_votes_exact(vals: Seq<ValidatorMetadata>)
    requires
        distinct_keys(vals),
    ensures
        forall|k: Seq<u8>|
            #![trigger next_epoch_votes(vals).contains_key(k)]
            next_epoch_votes(vals).contains_key(k) <==> exists|i: int|
                0 <= i < vals.len() && vals[i].pubkey_bytes@ == k,
        forall|i: int|
            0 <= i < vals.len() ==> next_epoch_votes(vals)[#[trigger] vals[i].pubkey_bytes@]
                == vals[i].next_epoch_stake,
        next_epoch_votes(vals).dom().finite(),
        next_epoch_votes(vals).len() == vals.len(),
    decreases vals.len(),
{
    if vals.len() > 0 {
        let d = vals.drop_last();
        let last = vals.last();
        assert(distinct_keys(d));
        lemma_next_epoch_votes_exact(d);
        assert forall|k: Seq<u8>|
            #![trigger next_epoch_votes(vals).contains_key(k)]
            next_epoch_votes(vals).contains_key(k) <==> exists|i: int|
                0 <= i < vals.len() && vals[i].pubkey_bytes@ == k by {
            if next_epoch_votes(d).contains_key(k) {
                let j = choose|j: int| 0 <= j < d.len() && d[j].pubkey_bytes@ == k;
                assert(vals[j].pubkey_bytes@ == k);
            }
            if exists|i: int| 0 <= i < vals.len() && vals[i].pubkey_bytes@ == k {
                let j = choose|j: int| 0 <= j < vals.len() && vals[j].pubkey_bytes@ == k;
                if j < d.len() {
                    assert(d[j].pubkey_bytes@ == k);
                }
            }
        }
        assert forall|i: int|
            0 <= i < vals.len() implies next_epoch_votes(vals)[#[trigger] vals[i].pubkey_bytes@]
                == vals[i].next_epoch_stake by {
            if i < d.len() {
                assert(d[i] == vals[i]);
                assert(vals[i].pubkey_bytes@ != last.pubkey_bytes@);
            }
        }
        assert(!next_epoch_votes(d).contains_key(last.pubkey_bytes@)) by {
            if next_epoch_votes(d).contains_key(last.pubkey_bytes@) {
                let j = choose|j: int| 0 <= j < d.len() && d[j].pubkey_bytes@ == last.pubkey_bytes@;
                assert(vals[j].pubkey_bytes@ != vals[vals.len() - 1].pubkey_bytes@);
            }
        }
    }
}

/// A committee made from validators with distinct keys holds exactly their
/// (key, stake) pairs: one entry per validator, each declared key with its
/// declared stake, and no entry that no validator declared.
pub proof fn lemma_committee_holds_declared_pairs(c: Committee, vals: Seq<ValidatorMetadata>)
    requires
        c.wf(),
        c.votes() == next_epoch_votes(vals),
        distinct_keys(vals),
    ensures
        c.voting_rights@.len() == vals.len(),
        forall|i: int|
            0 <= i < vals.len() ==> exists|j: int|
                0 <= j < c.voting_rights@.len() && (#[trigger] c.voting_rights@[j]).0.0@
                    == (#[trigger] vals[i]).pubkey_bytes@ && c.voting_rights@[j].1
                    == vals[i].next_epoch_stake,
        forall|j: int|
            0 <= j < c.voting_rights@.len() ==> exists|i: int|
                0 <= i < vals.len() && (#[trigger] c.voting_rights@[j]).0.0@
                    == (#[trigger] vals[i]).pubkey_bytes@ && c.voting_rights@[j].1
                    == vals[i].next_epoch_stake,
{
    let rights = c.voting_rights@;
    lemma_next_epoch_votes_exact(vals);
    lemma_keyed_view_len(rights);
    lemma_keyed_view_dom(rights);
    lemma_keyed_view_entries(rights);
    assert forall|i: int| 0 <= i < vals.len() implies exists|j: int|
        0 <= j < rights.len() && (#[trigger] rights[j]).0.0@ == (#[trigger] vals[i]).pubkey_bytes@
            && rights[j].1 == vals[i].next_epoch_stake by {
        let k = vals[i].pubkey_bytes@;
        assert(next_epoch_votes(vals).contains_key(k));
        assert(keyed_view(rights).contains_key(k));
        let j = choose|j: int| 0 <= j < rights.len() && rights[j].0.0@ == k;
        assert(keyed_view(rights)[rights[j].0.0@] == rights[j].1);
    }
    assert forall|j: int| 0 <= j < rights.len() implies exists|i: int|
        0 <= i < vals.len() && (#[trigger] rights[j]).0.0@ == (#[trigger] vals[i]).pubkey_bytes@
            && rights[j].1 == vals[i].next_epoch_stake by {
        let k = rights[j].0.0@;
        assert(keyed_view(rights).contains_key(k));
        assert(next_epoch_votes(vals).contains_key(k));
        let i = choose|i: int| 0 <= i < vals.len() && vals[i].pubkey_bytes@ == k;
        assert(next_epoch_votes(vals)[vals[i].pubkey_bytes@] == vals[i].next_epoch_stake);
    }
}

/// With each key once, every entry is in the denoted map with its own value.
proof fn lemma_keyed_view_entries(s: Seq<(PublicKeyBytes, u64)>)
    requires
        unique_keys(s),
    ensures
        forall|j: int|
            0 <= j < s.len() ==> keyed_view(s).contains_key((#[trigger] s[j]).0.0@)
                && keyed_view(s)[s[j].0.0@] == s[j].1,
    decreases s.len(),
{
    if s.len() > 0 {
        let d = s.drop_last();
        assert(unique_keys(d));
        lemma_keyed_view_entries(d);
        assert forall|j: int| 0 <= j < s.len() implies keyed_view(s).contains_key(
            (#[trigger] s[j]).0.0@,
        ) && keyed_view(s)[s[j].0.0@] == s[j].1 by {
            if j < d.len() {
                assert(d[j] == s[j]);
                assert(s[j].0.0@ != s[s.len() - 1].0.0@);
            }
        }
    }
}

/// With each key once, the denoted map has one entry per element.
proof fn lemma_keyed_view_len(s: Seq<(PublicKeyBytes, u64)>)
    requires
        unique_keys(s),
    ensures
        keyed_view(s).dom().finite(),
        keyed_view(s).len() == s.len(),
    decreases s.len(),
{
    if s.len() > 0 {
        let d = s.drop_last();
        assert(unique_keys(d));
        lemma_keyed_view_len(d);
        lemma_keyed_view_dom(d);
        assert(!keyed_view(d).contains_key(s.last().0.0@)) by {
            if keyed_view(d).contains_key(s.last().0.0@) {
                let j = choose|j: int| 0 <= j < d.len() && d[j].0.0@ == s.last().0.0@;
                assert(s[j].0.0@ != s[s.len() - 1].0.0@);
            }
        }
    }
}

/// A key is in the denoted map exactly when some entry carries it.
proof fn lemma_keyed_view_dom(s: Seq<(PublicKeyBytes, u64)>)
    ensures
        forall|k: Seq<u8>|
            #![trigger keyed_view(s).contains_key(k)]
            keyed_view(s).contains_key(k) <==> exists|j: int| 0 <= j < s.len() && s[j].0.0@ == k,
    decreases s.len(),
{
    if s.len() > 0 {
        let d = s.drop_last();
        lemma_keyed_view_dom(d);
        assert forall|k: Seq<u8>|
            #![trigger keyed_view(s).contains_key(k)]
            keyed_view(s).contains_key(k) <==> exists|j: int| 0 <= j < s.len() && s[j].0.0@ == k by {
            if keyed_view(d).contains_key(k) {
                let j = choose|j: int| 0 <= j < d.len() && d[j].0.0@ == k;
                assert(s[j].0.0@ == k);
            }
            if exists|j: int| 0 <= j < s.len() && s[j].0.0@ == k {
                let j = choose|j: int| 0 <= j < s.len() && s[j].0.0@ == k;
                if j < d.len() {
                    assert(d[j].0.0@ == k);
                }
            }
        }
    }
}

} // verus!
