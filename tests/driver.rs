use sui_execution_driver::capability::{PendCertificateForExecution, PendCertificateForExecutionNoop};
use sui_execution_driver::cert_store::CertificateStore;
use sui_execution_driver::driver::{
    execution_outcome, lookup_outcome, settle_attempt, AttemptOutcome, DriverAction, DriverEvent,
    DriverPhase, ExecutionDriver,
};
use sui_execution_driver::pending::PendingDigestSet;
use sui_execution_driver::types::{same_digest, SuiError, TransactionDigest, VerifiedCertificate};

fn digest(b: u8) -> TransactionDigest {
    TransactionDigest([b; 32])
}

fn cert(b: u8) -> VerifiedCertificate {
    VerifiedCertificate { digest: digest(b), transaction: vec![b, b], signatures: vec![vec![1, 2, 3]] }
}

/// Runs one attempt for `d` the way the driver does, with a ledger that accepts
/// every certificate.
fn run_attempt(pending: &mut PendingDigestSet, store: &CertificateStore, epoch: u64, d: &TransactionDigest) {
    let outcome = match lookup_outcome(Ok(store.get_cert(epoch, d))) {
        Err(outcome) => outcome,
        Ok(_cert) => execution_outcome(Ok(())),
    };
    let executed = outcome == AttemptOutcome::Executed;
    assert_eq!(settle_attempt(pending, d, outcome), executed);
}

#[test]
fn one_pass_removes_only_the_executed_digest() {
    let (d1, d2) = (digest(1), digest(2));
    let mut pending = PendingDigestSet::new();
    pending.insert(d1);
    pending.insert(d2);
    let mut store = CertificateStore::new();
    store.insert_cert(7, cert(1));

    let mut driver = ExecutionDriver::new();
    for d in [d1, d2] {
        assert_eq!(driver.step(DriverEvent::NextReady(Some(d))), DriverAction::ProcessRecoveryLog);
        let action = driver.step(DriverEvent::RecoveryFinished(Ok(())));
        assert_eq!(action, DriverAction::SpawnExecution(d));
        run_attempt(&mut pending, &store, 7, &d);
    }
    assert!(!pending.contains(&d1));
    assert!(pending.contains(&d2));
}

#[test]
fn closed_stream_backs_off_ten_seconds() {
    let mut driver = ExecutionDriver::new();
    assert_eq!(driver.step(DriverEvent::NextReady(None)), DriverAction::SleepThenAwait { secs: 10 });
    assert_eq!(driver.phase, DriverPhase::AwaitingDigest);
    assert_eq!(driver.step(DriverEvent::NextReady(Some(digest(3)))), DriverAction::ProcessRecoveryLog);
}

#[test]
fn failed_recovery_still_dispatches_and_next_digest_recovers_again() {
    let mut driver = ExecutionDriver::new();
    driver.step(DriverEvent::NextReady(Some(digest(1))));
    assert_eq!(
        driver.step(DriverEvent::RecoveryFinished(Err(SuiError::Storage))),
        DriverAction::SpawnExecution(digest(1))
    );
    assert_eq!(driver.step(DriverEvent::NextReady(Some(digest(2)))), DriverAction::ProcessRecoveryLog);
    assert_eq!(driver.phase, DriverPhase::Recovering(digest(2)));
}

#[test]
fn out_of_turn_events_do_not_skip_recovery() {
    let mut driver = ExecutionDriver::new();
    assert_eq!(driver.step(DriverEvent::RecoveryFinished(Ok(()))), DriverAction::AwaitNextDigest);
    driver.step(DriverEvent::NextReady(Some(digest(4))));
    assert_eq!(driver.step(DriverEvent::NextReady(Some(digest(5)))), DriverAction::ProcessRecoveryLog);
    assert_eq!(driver.phase, DriverPhase::Recovering(digest(4)));
}

#[test]
fn lookup_error_keeps_digest_pending() {
    let d = digest(9);
    let mut pending = PendingDigestSet::new();
    pending.insert(d);
    let outcome = lookup_outcome(Err(SuiError::Storage)).unwrap_err();
    assert_eq!(outcome, AttemptOutcome::LookupFailed(SuiError::Storage));
    settle_attempt(&mut pending, &d, outcome);
    assert!(pending.contains(&d));
}

#[test]
fn missing_certificate_keeps_digest_pending() {
    let d = digest(9);
    let mut pending = PendingDigestSet::new();
    pending.insert(d);
    let outcome = lookup_outcome(Ok(None)).unwrap_err();
    assert_eq!(outcome, AttemptOutcome::CertificateMissing);
    settle_attempt(&mut pending, &d, outcome);
    assert!(pending.contains(&d));
}

#[test]
fn execution_failure_keeps_digest_pending() {
    let d = digest(9);
    let mut pending = PendingDigestSet::new();
    pending.insert(d);
    let outcome = execution_outcome(Err(SuiError::Execution));
    assert_eq!(outcome, AttemptOutcome::ExecutionFailed(SuiError::Execution));
    settle_attempt(&mut pending, &d, outcome);
    assert!(pending.contains(&d));
    settle_attempt(&mut pending, &d, AttemptOutcome::Executed);
    assert!(!pending.contains(&d));
}

#[test]
fn executed_attempt_removes_only_its_digest() {
    let mut pending = PendingDigestSet::new();
    pending.insert(digest(1));
    pending.insert(digest(2));
    settle_attempt(&mut pending, &digest(1), AttemptOutcome::Executed);
    assert!(!pending.contains(&digest(1)));
    assert!(pending.contains(&digest(2)));
}

#[test]
fn certificate_lookup_is_keyed_by_epoch_and_digest() {
    let mut store = CertificateStore::new();
    store.insert_cert(3, cert(1));
    assert!(store.get_cert(3, &digest(1)).is_some());
    assert!(store.get_cert(4, &digest(1)).is_none());
    assert!(store.get_cert(3, &digest(2)).is_none());
    let mut replacement = cert(1);
    replacement.transaction = vec![42];
    store.insert_cert(3, replacement);
    assert_eq!(store.get_cert(3, &digest(1)).unwrap().transaction, vec![42]);
}

#[test]
fn pending_set_insert_and_remove_are_idempotent() {
    let mut pending = PendingDigestSet::new();
    assert!(!pending.contains(&digest(1)));
    pending.insert(digest(1));
    pending.insert(digest(1));
    assert!(pending.contains(&digest(1)));
    pending.remove(&digest(1));
    assert!(!pending.contains(&digest(1)));
    pending.remove(&digest(1));
    assert!(!pending.contains(&digest(1)));
}

#[test]
fn pending_set_bulk_add_and_remove() {
    let mut pending = PendingDigestSet::new();
    pending.add_pending_digests(&vec![digest(1), digest(2), digest(3)]);
    pending.remove_pending_digests(&vec![digest(1), digest(3), digest(4)]);
    assert!(!pending.contains(&digest(1)));
    assert!(pending.contains(&digest(2)));
    assert!(!pending.contains(&digest(3)));
    assert!(!pending.contains(&digest(4)));
}

#[test]
fn ledger_capability_registers_every_certificate() {
    let mut pending = PendingDigestSet::new();
    pending.insert(digest(1));
    let r = pending.add_pending_certificates(vec![cert(1), cert(2)]);
    assert_eq!(r, Ok(()));
    assert!(pending.contains(&digest(1)));
    assert!(pending.contains(&digest(2)));
    assert!(!pending.contains(&digest(3)));
}

#[test]
fn registering_pending_certificates_again_succeeds() {
    let mut pending = PendingDigestSet::new();
    assert_eq!(pending.add_pending_certificates(vec![cert(1)]), Ok(()));
    assert_eq!(pending.add_pending_certificates(vec![cert(1), cert(1)]), Ok(()));
    assert!(pending.contains(&digest(1)));
    settle_attempt(&mut pending, &digest(1), AttemptOutcome::Executed);
    assert!(!pending.contains(&digest(1)));
}

#[test]
fn noop_capability_accepts_and_records_nothing() {
    let pending = PendingDigestSet::new();
    let mut noop = PendCertificateForExecutionNoop;
    assert_eq!(noop.add_pending_certificates(vec![cert(1), cert(2)]), Ok(()));
    assert_eq!(noop.add_pending_certificates(Vec::new()), Ok(()));
    assert!(!pending.contains(&digest(1)));
}

#[test]
fn digests_compare_by_every_byte() {
    let a = digest(1);
    let mut b = digest(1);
    assert!(same_digest(&a, &b));
    b.0[31] = 2;
    assert!(!same_digest(&a, &b));
}
