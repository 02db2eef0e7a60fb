use vstd::prelude::*;

use crate::committee::{keys_decodable, next_epoch_committee, next_epoch_votes, Committee};
use crate::keyed::{keyed_view, upsert};
use crate::types::{AuthorityName, SuiError, SuiSystemState};

verus! {

/// Milliseconds between two checks of the outstanding tickets while halted.
pub const TICKET_POLL_MILLIS: u64 = 50;

/// What the quiescence barrier asks of its caller.
#[derive(Clone, Copy, Debug, PartialEq, Eq)]
pub enum BarrierAction {
    /// Sleep this many milliseconds, then report the outstanding tickets again.
    SleepThenPoll { millis: u64 },
    /// Admission is halted and no ticket is outstanding: the barrier is passed.
    Drained,
}

/// The barrier's answer to one report of outstanding tickets.
pub open spec fn barrier_poll(halted: bool, outstanding: u64) -> BarrierAction {
    if halted && outstanding == 0 {
        BarrierAction::Drained
    } else {
        BarrierAction::SleepThenPoll { millis: TICKET_POLL_MILLIS }
    }
}

/// The round, counted from zero, at which the barrier is passed when the
/// successive reports of outstanding tickets are `counts`; none if it is not
/// passed within them.
pub open spec fn rounds_until_drained(halted: bool, counts: Seq<u64>) -> Option<nat>
    decreases counts.len(),
{
    if counts.len() == 0 {
        None
    } else if barrier_poll(halted, counts[0]) == BarrierAction::Drained {
        Some(0)
    } else {
        match rounds_until_drained(halted, counts.drop_first()) {
            Some(n) => Some(n + 1),
            None => None,
        }
    }
}

/// The barrier is passed only at a round where admission is halted and no ticket
/// is outstanding, every earlier round having reported some; and once halted, it
/// is passed no later than the first round that reports none.
pub proof fn lemma_barrier_passes_only_when_drained(halted: bool, counts: Seq<u64>)
    ensures
        rounds_until_drained(halted, counts) matches Some(n) ==> {
            &&& halted
            &&& n < counts.len()
            &&& counts[n as int] == 0
            &&& forall|j: int| 0 <= j < n ==> counts[j] > 0
        },
        forall|k: int|
            0 <= k < counts.len() && halted && #[trigger] counts[k] == 0 ==> (rounds_until_drained(
                halted,
                counts,
            ) matches Some(n) && n <= k),
    decreases counts.len(),
{
    if counts.len() > 0 {
        let rest = counts.drop_first();
        lemma_barrier_passes_only_when_drained(halted, rest);
        assert forall|k: int|
            0 <= k < counts.len() && halted && #[trigger] counts[k] == 0 implies (rounds_until_drained(
                halted,
                counts,
            ) matches Some(n) && n <= k) by {
            if k > 0 {
                assert(rest[k - 1] == counts[k]);
            }
        }
        if let Some(n) = rounds_until_drained(halted, counts) {
            if n > 0 {
                assert forall|j: int| 0 <= j < n implies counts[j] > 0 by {
                    if j > 0 {
                        assert(rest[j - 1] == counts[j]);
                    }
                }
            }
        }
    }
}

/// The change of epoch that a validator proposes.
#[derive(Clone, Copy, Debug, PartialEq, Eq)]
pub struct ChangeEpoch {
    pub epoch: u64,
    pub storage_charge: u64,
    pub computation_charge: u64,
    pub validator: AuthorityName,
}

/// A change of epoch signed by the validator that proposes it.
#[derive(Clone, Debug)]
pub struct SignedChangeEpoch {
    pub change: ChangeEpoch,
    pub signature: Vec<u8>,
}

/// The state of a validator that the epoch controller reads and changes.
pub struct AuthorityState {
    /// This validator's identity.
    pub name: AuthorityName,
    /// While true, admission of new sequencing is refused.
    pub halted: bool,
    /// The committee that the checkpoint subsystem works with.
    pub committee: Committee,
    /// Signed change-epoch transactions awaiting aggregation, by validator.
    pub change_epoch_tx: Vec<(AuthorityName, SignedChangeEpoch)>,
}

/// Where the transition to the next epoch stands.
pub enum EpochChangePhase {
    /// No transition under way.
    Idle,
    /// Waiting for the on-chain system state.
    Fetching,
    /// Waiting for this next committee to be persisted.
    Persisting(Committee),
    /// The committee is installed; waiting for the signature over this change.
    Signing(ChangeEpoch),
    /// The signed change is recorded; waiting for the new epoch to begin.
    Beginning,
}

/// What the outside world reports to the epoch controller.
pub enum EpochChangeEvent {
    /// The quiescence barrier was passed: the transition may start.
    Started,
    /// The on-chain system state was fetched, or fetching it failed.
    SystemStateFetched(Result<SuiSystemState, SuiError>),
    /// Persisting the next committee succeeded or failed.
    EpochInfoPersisted(Result<(), SuiError>),
    /// This validator's signature over the drafted change.
    ChangeEpochSigned(Vec<u8>),
    /// Beginning the new epoch succeeded or failed.
    NewEpochBegun(Result<(), SuiError>),
}

/// What the epoch controller asks the outside world to do next.
#[derive(Clone, Copy, Debug, PartialEq, Eq)]
pub enum EpochChangeAction {
    /// Fetch the on-chain system state.
    FetchSystemState,
    /// Persist the committee that the `Persisting` phase holds.
    PersistEpochInfo,
    /// Sign this change with this validator's key.
    SignChangeEpoch(ChangeEpoch),
    /// Begin the new epoch.
    BeginNewEpoch,
    /// The transition is over, with this result.
    Finished(Result<(), SuiError>),
    /// The event does not fit the phase: nothing changed.
    Ignored,
}

/// A validator taking part in the protocol.
pub struct ActiveAuthority {
    pub state: AuthorityState,
    pub reconfig: EpochChangePhase,
}

/// The change of epoch that `name` proposes for the epoch of `committee`; both
/// charges are zero.
pub open spec fn drafted_change(committee: Committee, name: AuthorityName) -> ChangeEpoch {
    ChangeEpoch { epoch: committee.epoch, storage_charge: 0, computation_charge: 0, validator: name }
}

/// A fetched system state can be used: its epoch can be followed by another
/// and every declared key decodes.
pub open spec fn fetched_usable(event: EpochChangeEvent) -> bool {
    event matches EpochChangeEvent::SystemStateFetched(Ok(s)) ==> s.epoch < u64::MAX
        && keys_decodable(s.validators.next_epoch_validators@)
}

impl ActiveAuthority {
    /// A validator that admits work, with `committee`, no change-epoch
    /// transaction recorded and no transition under way.
    pub fn new(name: AuthorityName, committee: Committee) -> (r: ActiveAuthority)
        ensures
            r.state.name == name,
            !r.state.halted,
            r.state.committee == committee,
            r.change_epoch_transactions() == Map::<Seq<u8>, SignedChangeEpoch>::empty(),
            r.reconfig is Idle,
    {
        ActiveAuthority {
            state: AuthorityState { name, halted: false, committee, change_epoch_tx: Vec::new() },
            reconfig: EpochChangePhase::Idle,
        }
    }

    /// The recorded change-epoch transactions, keyed by the bytes of the
    /// validator that signed them.
    pub open spec fn change_epoch_transactions(&self) -> Map<Seq<u8>, SignedChangeEpoch> {
        keyed_view(self.state.change_epoch_tx@)
    }

    /// Halts admission of new sequencing; the caller then polls the outstanding
    /// tickets with `poll_ticket_drain` until it answers `Drained`.
    pub fn start_epoch_change(&mut self)
        ensures
            final(self).state.halted,
            final(self).state.name == old(self).state.name,
            final(self).state.committee == old(self).state.committee,
            final(self).state.change_epoch_tx == old(self).state.change_epoch_tx,
            final(self).reconfig == old(self).reconfig,
    {
        self.state.halted = true;
    }

    /// The barrier's answer when `outstanding` tickets remain unfinalized.
    pub fn poll_ticket_drain(&self, outstanding: u64) -> (r: BarrierAction)
        ensures
            r == barrier_poll(self.state.halted, outstanding),
    {
        if self.state.halted && outstanding == 0 {
            BarrierAction::Drained
        } else {
            BarrierAction::SleepThenPoll { millis: TICKET_POLL_MILLIS }
        }
    }

    /// One move of the transition to the next epoch. From `Idle`, `Started` asks
    /// for the system state; a fetched state gives the next committee, to be
    /// persisted; once persisted it is installed and this validator's change is
    /// drafted for signing; the signed change is recorded under this validator
    /// and the new epoch is begun. A failed fetch, persist or begin ends the
    /// transition with that error and changes nothing more.
    pub fn finish_epoch_change(&mut self, event: EpochChangeEvent) -> (action: EpochChangeAction)
        requires
            fetched_usable(event),
        ensures
            final(self).state.name == old(self).state.name,
            final(self).state.halted == old(self).state.halted,
            match (old(self).reconfig, event) {
                (EpochChangePhase::Idle, EpochChangeEvent::Started) => {
                    &&& final(self).reconfig is Fetching
                    &&& action == EpochChangeAction::FetchSystemState
                    &&& final(self).state == old(self).state
                },
                (EpochChangePhase::Fetching, EpochChangeEvent::SystemStateFetched(Err(e))) => {
                    &&& final(self).reconfig is Idle
                    &&& action == EpochChangeAction::Finished(Err(e))
                    &&& final(self).state == old(self).state
                },
                (EpochChangePhase::Fetching, EpochChangeEvent::SystemStateFetched(Ok(s))) => {
                    &&& final(self).reconfig matches EpochChangePhase::Persisting(c) && c.wf()
                        && c.epoch == s.epoch + 1 && c.votes() == next_epoch_votes(
                        s.validators.next_epoch_validators@,
                    )
                    &&& action == EpochChangeAction::PersistEpochInfo
                    &&& final(self).state == old(self).state
                },
                (EpochChangePhase::Persisting(_), EpochChangeEvent::EpochInfoPersisted(Err(e))) => {
                    &&& final(self).reconfig is Idle
                    &&& action == EpochChangeAction::Finished(Err(e))
                    &&& final(self).state == old(self).state
                },
                (EpochChangePhase::Persisting(c), EpochChangeEvent::EpochInfoPersisted(Ok(()))) => {
                    let draft = drafted_change(c, old(self).state.name);
                    &&& final(self).state.committee == c
                    &&& final(self).state.change_epoch_tx == old(self).state.change_epoch_tx
                    &&& final(self).reconfig == EpochChangePhase::Signing(draft)
                    &&& action == EpochChangeAction::SignChangeEpoch(draft)
                },
                (EpochChangePhase::Signing(d), EpochChangeEvent::ChangeEpochSigned(sig)) => {
                    &&& final(self).change_epoch_transactions()
                        == old(self).change_epoch_transactions().insert(
                        d.validator.0@,
                        SignedChangeEpoch { change: d, signature: sig },
                    )
                    &&& final(self).state.committee == old(self).state.committee
                    &&& final(self).reconfig is Beginning
                    &&& action == EpochChangeAction::BeginNewEpoch
                },
                (EpochChangePhase::Beginning, EpochChangeEvent::NewEpochBegun(r)) => {
                    &&& final(self).reconfig is Idle
                    &&& action == EpochChangeAction::Finished(r)
                    &&& final(self).state == old(self).state
                },
                _ => {
                    &&& final(self).reconfig == old(self).reconfig
                    &&& action == EpochChangeAction::Ignored
                    &&& final(self).state == old(self).state
                },
            },
    {
        let mut phase = EpochChangePhase::Idle;
        std::mem::swap(&mut phase, &mut self.reconfig);
        match (phase, event) {
            (EpochChangePhase::Idle, EpochChangeEvent::Started) => {
                self.reconfig = EpochChangePhase::Fetching;
                EpochChangeAction::FetchSystemState
            },
            (EpochChangePhase::Fetching, EpochChangeEvent::SystemStateFetched(Err(e))) => {
                EpochChangeAction::Finished(Err(e))
            },
            (EpochChangePhase::Fetching, EpochChangeEvent::SystemStateFetched(Ok(s))) => {
                self.reconfig = EpochChangePhase::Persisting(next_epoch_committee(&s));
                EpochChangeAction::PersistEpochInfo
            },
            (EpochChangePhase::Persisting(_), EpochChangeEvent::EpochInfoPersisted(Err(e))) => {
                EpochChangeAction::Finished(Err(e))
            },
            (EpochChangePhase::Persisting(c), EpochChangeEvent::EpochInfoPersisted(Ok(()))) => {
                let draft = ChangeEpoch {
                    epoch: c.epoch,
                    storage_charge: 0,
                    computation_charge: 0,
                    validator: self.state.name,
                };
                self.state.committee = c;
                self.reconfig = EpochChangePhase::Signing(draft);
                EpochChangeAction::SignChangeEpoch(draft)
            },
            (EpochChangePhase::Signing(d), EpochChangeEvent::ChangeEpochSigned(sig)) => {
                upsert(
                    &mut self.state.change_epoch_tx,
                    d.validator,
                    SignedChangeEpoch { change: d, signature: sig },
                );
                self.reconfig = EpochChangePhase::Beginning;
                EpochChangeAction::BeginNewEpoch
            },
            (EpochChangePhase::Beginning, EpochChangeEvent::NewEpochBegun(r)) => {
                EpochChangeAction::Finished(r)
            },
            (other, _) => {
                self.reconfig = other;
                EpochChangeAction::Ignored
            },
        }
    }
}

} // verus!
