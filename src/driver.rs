use vstd::prelude::*;

use crate::pending::PendingDigestSet;
use crate::types::{SuiError, TransactionDigest, VerifiedCertificate};

verus! {

/// Seconds the driver waits before asking again when the readiness stream has ended.
pub const READY_STREAM_RETRY_SECS: u64 = 10;

/// Where the driver loop stands.
#[derive(Clone, Copy, Debug, PartialEq, Eq)]
pub enum DriverPhase {
    /// Waiting for the next ready digest.
    AwaitingDigest,
    /// A recovery-log pass runs before the execution of this digest is dispatched.
    Recovering(TransactionDigest),
}

/// What the outside world reports to the driver loop.
#[derive(Clone, Copy, Debug, PartialEq, Eq)]
pub enum DriverEvent {
    /// The readiness stream produced a digest, or reported that it has ended.
    NextReady(Option<TransactionDigest>),
    /// The recovery-log pass finished, successfully or not.
    RecoveryFinished(Result<(), SuiError>),
}

/// What the driver loop asks the outside world to do next.
#[derive(Clone, Copy, Debug, PartialEq, Eq)]
pub enum DriverAction {
    /// Wait for the next ready digest.
    AwaitNextDigest,
    /// Sleep this many seconds, then wait for the next ready digest.
    SleepThenAwait { secs: u64 },
    /// Run one recovery-log pass for the current epoch and report its outcome.
    ProcessRecoveryLog,
    /// Start an independent execution attempt for the digest, then wait for the
    /// next ready digest.
    SpawnExecution(TransactionDigest),
}

/// One move of the driver loop. An event out of turn changes no phase: a ready
/// digest reported while a recovery pass is outstanding is not taken, and the
/// pass is asked for again.
pub open spec fn driver_step(phase: DriverPhase, event: DriverEvent) -> (DriverPhase, DriverAction) {
    match (phase, event) {
        (DriverPhase::AwaitingDigest, DriverEvent::NextReady(None)) => (
            DriverPhase::AwaitingDigest,
            DriverAction::SleepThenAwait { secs: READY_STREAM_RETRY_SECS },
        ),
        (DriverPhase::AwaitingDigest, DriverEvent::NextReady(Some(d))) => (
            DriverPhase::Recovering(d),
            DriverAction::ProcessRecoveryLog,
        ),
        (DriverPhase::AwaitingDigest, DriverEvent::RecoveryFinished(_)) => (
            DriverPhase::AwaitingDigest,
            DriverAction::AwaitNextDigest,
        ),
        (DriverPhase::Recovering(d), DriverEvent::RecoveryFinished(_)) => (
            DriverPhase::AwaitingDigest,
            DriverAction::SpawnExecution(d),
        ),
        (DriverPhase::Recovering(d), DriverEvent::NextReady(_)) => (
            DriverPhase::Recovering(d),
            DriverAction::ProcessRecoveryLog,
        ),
    }
}

/// The decisions of the execution driver loop.
pub struct ExecutionDriver {
    pub phase: DriverPhase,
}

impl ExecutionDriver {
    /// A driver that waits for its first ready digest.
    pub fn new() -> (r: ExecutionDriver)
        ensures
            r.phase == DriverPhase::AwaitingDigest,
    {
        ExecutionDriver { phase: DriverPhase::AwaitingDigest }
    }

    /// Takes in what the outside world reports and says what it must do next.
    pub fn step(&mut self, event: DriverEvent) -> (action: DriverAction)
        ensures
            (final(self).phase, action) == driver_step(old(self).phase, event),
    {
        match (self.phase, event) {
            (DriverPhase::AwaitingDigest, DriverEvent::NextReady(None)) => {
                DriverAction::SleepThenAwait { secs: READY_STREAM_RETRY_SECS }
            },
            (DriverPhase::AwaitingDigest, DriverEvent::NextReady(Some(d))) => {
                self.phase = DriverPhase::Recovering(d);
                DriverAction::ProcessRecoveryLog
            },
            (DriverPhase::AwaitingDigest, DriverEvent::RecoveryFinished(_)) => {
                DriverAction::AwaitNextDigest
            },
            (DriverPhase::Recovering(d), DriverEvent::RecoveryFinished(_)) => {
                self.phase = DriverPhase::AwaitingDigest;
                DriverAction::SpawnExecution(d)
            },
            (DriverPhase::Recovering(_), DriverEvent::NextReady(_)) => {
                DriverAction::ProcessRecoveryLog
            },
        }
    }
}

/// Every ready digest is preceded by a recovery-log pass, whatever the previous
/// pass reported: once a pass finishes, successfully or not, the dispatch of its
/// digest follows, and the next ready digest again starts with a pass.
pub proof fn lemma_recovery_every_iteration(
    previous: TransactionDigest,
    outcome: Result<(), SuiError>,
    next: TransactionDigest,
)
    ensures
        driver_step(DriverPhase::Recovering(previous), DriverEvent::RecoveryFinished(outcome)) == (
            DriverPhase::AwaitingDigest,
            DriverAction::SpawnExecution(previous),
        ),
        driver_step(DriverPhase::AwaitingDigest, DriverEvent::NextReady(Some(next))) == (
            DriverPhase::Recovering(next),
            DriverAction::ProcessRecoveryLog,
        ),
{
}

/// The actions the driver takes, from `phase`, on the successive `events`.
pub open spec fn driver_actions(phase: DriverPhase, events: Seq<DriverEvent>) -> Seq<DriverAction>
    decreases events.len(),
{
    if events.len() == 0 {
        Seq::empty()
    } else {
        let (next, action) = driver_step(phase, events[0]);
        seq![action] + driver_actions(next, events.drop_first())
    }
}

/// On any run of the loop, each dispatch of an execution attempt comes right
/// after a recovery-log pass was asked for; a run that starts by waiting for a
/// digest dispatches nothing before such a pass.
pub proof fn lemma_recovery_precedes_every_dispatch(phase: DriverPhase, events: Seq<DriverEvent>)
    ensures
        forall|i: int|
            #![trigger driver_actions(phase, events)[i]]
            1 <= i < driver_actions(phase, events).len() && driver_actions(
                phase,
                events,
            )[i] is SpawnExecution ==> driver_actions(phase, events)[i - 1]
                == DriverAction::ProcessRecoveryLog,
        driver_actions(phase, events).len() == events.len(),
        events.len() > 0 && driver_actions(phase, events)[0] is SpawnExecution ==> phase is Recovering,
    decreases events.len(),
{
    if events.len() > 0 {
        let (next, action) = driver_step(phase, events[0]);
        let rest = driver_actions(next, events.drop_first());
        lemma_recovery_precedes_every_dispatch(next, events.drop_first());
        let all = driver_actions(phase, events);
        assert(all == seq![action] + rest);
        assert forall|i: int|
            #![trigger driver_actions(phase, events)[i]]
            1 <= i < all.len() && all[i] is SpawnExecution implies all[i - 1]
                == DriverAction::ProcessRecoveryLog by {
            assert(all[i] == rest[i - 1]);
            if i >= 2 {
                assert(all[i - 1] == rest[i - 2]);
            }
        }
    }
}

/// How one execution attempt for a digest ended.
#[derive(Clone, Copy, Debug, PartialEq, Eq)]
pub enum AttemptOutcome {
    /// The certificate store failed on the lookup.
    LookupFailed(SuiError),
    /// The store holds no certificate for the digest in the current epoch.
    CertificateMissing,
    /// Applying the certificate to the ledger failed.
    ExecutionFailed(SuiError),
    /// The certificate was applied.
    Executed,
}

/// The certificate to apply, or the outcome that ends the attempt at the lookup.
pub fn lookup_outcome<'a>(lookup: Result<Option<&'a VerifiedCertificate>, SuiError>) -> (r: Result<
    &'a VerifiedCertificate,
    AttemptOutcome,
>)
    ensures
        match lookup {
            Err(e) => r == Err::<&VerifiedCertificate, AttemptOutcome>(AttemptOutcome::LookupFailed(e)),
            Ok(None) => r == Err::<&VerifiedCertificate, AttemptOutcome>(
                AttemptOutcome::CertificateMissing,
            ),
            Ok(Some(c)) => r == Ok::<&VerifiedCertificate, AttemptOutcome>(c),
        },
{
    match lookup {
        Err(e) => Err(AttemptOutcome::LookupFailed(e)),
        Ok(None) => Err(AttemptOutcome::CertificateMissing),
        Ok(Some(c)) => Ok(c),
    }
}

/// The outcome of an attempt whose certificate was handed to the ledger.
pub fn execution_outcome(result: Result<(), SuiError>) -> (r: AttemptOutcome)
    ensures
        match result {
            Ok(()) => r == AttemptOutcome::Executed,
            Err(e) => r == AttemptOutcome::ExecutionFailed(e),
        },
{
    match result {
        Ok(()) => AttemptOutcome::Executed,
        Err(e) => AttemptOutcome::ExecutionFailed(e),
    }
}

/// The pending digests after an attempt for `digest` ended with `outcome`: only
/// an executed certificate leaves the set.
pub open spec fn after_attempt(
    pending: Set<TransactionDigest>,
    digest: TransactionDigest,
    outcome: AttemptOutcome,
) -> Set<TransactionDigest> {
    if outcome == AttemptOutcome::Executed {
        pending.remove(digest)
    } else {
        pending
    }
}

/// Applies the end of an attempt for `digest` to the pending set; answers
/// whether the digest left it, so that the durable copy is updated likewise.
pub fn settle_attempt(pending: &mut PendingDigestSet, digest: &TransactionDigest, outcome: AttemptOutcome) -> (removed: bool)
    ensures
        final(pending)@ == after_attempt(old(pending)@, *digest, outcome),
        removed == (outcome == AttemptOutcome::Executed),
{
    if let AttemptOutcome::Executed = outcome {
        pending.remove(digest);
        true
    } else {
        false
    }
}

/// A digest leaves the pending set only through an attempt for its own
/// certificate whose execution succeeded.
pub proof fn lemma_removed_only_after_execution(
    pending: Set<TransactionDigest>,
    digest: TransactionDigest,
    outcome: AttemptOutcome,
    d: TransactionDigest,
)
    requires
        pending.contains(d),
        !after_attempt(pending, digest, outcome).contains(d),
    ensures
        d == digest,
        outcome == AttemptOutcome::Executed,
{
}

/// A digest whose certificate lookup failed or found nothing stays pending.
pub proof fn lemma_kept_after_failed_lookup(
    pending: Set<TransactionDigest>,
    digest: TransactionDigest,
    lookup: Result<Option<VerifiedCertificate>, SuiError>,
)
    requires
        pending.contains(digest),
        !(lookup matches Ok(Some(_))),
    ensures
        ({
            let outcome = match lookup {
                Err(e) => AttemptOutcome::LookupFailed(e),
                _ => AttemptOutcome::CertificateMissing,
            };
            after_attempt(pending, digest, outcome).contains(digest)
        }),
{
}

} // verus!
