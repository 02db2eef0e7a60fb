use sui_execution_driver::committee::{next_epoch_committee, Committee};
use sui_execution_driver::reconfiguration::{
    ActiveAuthority, BarrierAction, ChangeEpoch, EpochChangeAction, EpochChangeEvent, EpochChangePhase,
};
use sui_execution_driver::types::{
    same_key, PublicKeyBytes, SuiError, SuiSystemState, ValidatorMetadata, ValidatorSet,
};

fn key(b: u8) -> PublicKeyBytes {
    PublicKeyBytes([b; 32])
}

fn system_state(epoch: u64, validators: &[(u8, u64)]) -> SuiSystemState {
    SuiSystemState {
        epoch,
        validators: ValidatorSet {
            next_epoch_validators: validators
                .iter()
                .map(|(b, stake)| ValidatorMetadata { pubkey_bytes: vec![*b; 32], next_epoch_stake: *stake })
                .collect(),
        },
    }
}

fn authority() -> ActiveAuthority {
    ActiveAuthority::new(key(7), Committee::new(4, vec![(key(7), 10)]))
}

#[test]
fn barrier_waits_until_tickets_drain() {
    let mut active = authority();
    assert!(!active.state.halted);
    active.start_epoch_change();
    assert!(active.state.halted);
    let mut answers = Vec::new();
    for outstanding in [3u64, 3, 2, 1, 0] {
        answers.push(active.poll_ticket_drain(outstanding));
    }
    let wait = BarrierAction::SleepThenPoll { millis: 50 };
    assert_eq!(answers, vec![wait, wait, wait, wait, BarrierAction::Drained]);
}

#[test]
fn barrier_is_not_passed_before_halting() {
    let active = authority();
    assert_eq!(active.poll_ticket_drain(0), BarrierAction::SleepThenPoll { millis: 50 });
}

/// Runs the transition up to the point where the next committee awaits persisting.
fn fetch(active: &mut ActiveAuthority, state: SuiSystemState) -> EpochChangeAction {
    assert_eq!(active.finish_epoch_change(EpochChangeEvent::Started), EpochChangeAction::FetchSystemState);
    active.finish_epoch_change(EpochChangeEvent::SystemStateFetched(Ok(state)))
}

fn pending_committee(active: &ActiveAuthority) -> &Committee {
    match &active.reconfig {
        EpochChangePhase::Persisting(c) => c,
        _ => panic!("no committee awaits persisting"),
    }
}

#[test]
fn next_committee_holds_declared_validators() {
    let mut active = authority();
    let action = fetch(&mut active, system_state(4, &[(0xA, 100), (0xB, 200)]));
    assert_eq!(action, EpochChangeAction::PersistEpochInfo);
    let committee = pending_committee(&active);
    assert_eq!(committee.epoch, 5);
    assert_eq!(committee.size(), 2);
    assert_eq!(committee.stake_of(&key(0xA)), Some(100));
    assert_eq!(committee.stake_of(&key(0xB)), Some(200));
    assert_eq!(committee.stake_of(&key(0xC)), None);
    assert_eq!(active.state.committee.epoch, 4);
}

#[test]
fn failed_fetch_is_passed_on() {
    let mut active = authority();
    active.finish_epoch_change(EpochChangeEvent::Started);
    let action = active.finish_epoch_change(EpochChangeEvent::SystemStateFetched(Err(SuiError::EpochFetch)));
    assert_eq!(action, EpochChangeAction::Finished(Err(SuiError::EpochFetch)));
    assert!(matches!(active.reconfig, EpochChangePhase::Idle));
    assert_eq!(active.state.committee.epoch, 4);
}

#[test]
fn later_declaration_of_a_key_wins() {
    let committee = next_epoch_committee(&system_state(0, &[(1, 5), (2, 6), (1, 9)]));
    assert_eq!(committee.epoch, 1);
    assert_eq!(committee.size(), 2);
    assert_eq!(committee.stake_of(&key(1)), Some(9));
    assert_eq!(committee.stake_of(&key(2)), Some(6));
}

#[test]
fn empty_validator_list_gives_empty_committee() {
    let committee = next_epoch_committee(&system_state(10, &[]));
    assert_eq!(committee.epoch, 11);
    assert_eq!(committee.size(), 0);
}

#[test]
fn failed_persistence_changes_nothing() {
    let mut active = authority();
    active.start_epoch_change();
    fetch(&mut active, system_state(4, &[(1, 1)]));
    let action = active.finish_epoch_change(EpochChangeEvent::EpochInfoPersisted(Err(SuiError::EpochPersist)));
    assert_eq!(action, EpochChangeAction::Finished(Err(SuiError::EpochPersist)));
    assert!(matches!(active.reconfig, EpochChangePhase::Idle));
    assert_eq!(active.state.committee.epoch, 4);
    assert_eq!(active.state.committee.stake_of(&key(7)), Some(10));
    assert!(active.state.change_epoch_tx.is_empty());
}

#[test]
fn full_transition_installs_records_and_begins() {
    let mut active = authority();
    active.start_epoch_change();
    assert_eq!(active.poll_ticket_drain(0), BarrierAction::Drained);
    fetch(&mut active, system_state(4, &[(1, 100)]));
    let draft = ChangeEpoch { epoch: 5, storage_charge: 0, computation_charge: 0, validator: key(7) };
    let action = active.finish_epoch_change(EpochChangeEvent::EpochInfoPersisted(Ok(())));
    assert_eq!(action, EpochChangeAction::SignChangeEpoch(draft));
    assert_eq!(active.state.committee.epoch, 5);
    assert_eq!(active.state.committee.stake_of(&key(1)), Some(100));
    assert_eq!(active.state.committee.stake_of(&key(7)), None);
    assert!(active.state.change_epoch_tx.is_empty());
    let action = active.finish_epoch_change(EpochChangeEvent::ChangeEpochSigned(vec![9, 9]));
    assert_eq!(action, EpochChangeAction::BeginNewEpoch);
    assert_eq!(active.state.change_epoch_tx.len(), 1);
    assert!(same_key(&active.state.change_epoch_tx[0].0, &key(7)));
    assert_eq!(active.state.change_epoch_tx[0].1.change, draft);
    assert_eq!(active.state.change_epoch_tx[0].1.signature, vec![9, 9]);
    let action = active.finish_epoch_change(EpochChangeEvent::NewEpochBegun(Ok(())));
    assert_eq!(action, EpochChangeAction::Finished(Ok(())));
    assert!(matches!(active.reconfig, EpochChangePhase::Idle));
    assert!(active.state.halted);
}

#[test]
fn failed_begin_is_passed_on() {
    let mut active = authority();
    fetch(&mut active, system_state(4, &[(1, 100)]));
    active.finish_epoch_change(EpochChangeEvent::EpochInfoPersisted(Ok(())));
    active.finish_epoch_change(EpochChangeEvent::ChangeEpochSigned(vec![1]));
    let action = active.finish_epoch_change(EpochChangeEvent::NewEpochBegun(Err(SuiError::Storage)));
    assert_eq!(action, EpochChangeAction::Finished(Err(SuiError::Storage)));
}

#[test]
fn out_of_turn_events_are_ignored() {
    let mut active = authority();
    let action = active.finish_epoch_change(EpochChangeEvent::EpochInfoPersisted(Ok(())));
    assert_eq!(action, EpochChangeAction::Ignored);
    assert!(matches!(active.reconfig, EpochChangePhase::Idle));
    active.finish_epoch_change(EpochChangeEvent::Started);
    let action = active.finish_epoch_change(EpochChangeEvent::NewEpochBegun(Ok(())));
    assert_eq!(action, EpochChangeAction::Ignored);
    assert!(matches!(active.reconfig, EpochChangePhase::Fetching));
    assert_eq!(active.state.committee.epoch, 4);
}

#[test]
fn signed_change_replaces_earlier_one_from_same_validator() {
    let mut active = authority();
    for signature in [vec![1u8], vec![2u8]] {
        fetch(&mut active, system_state(4, &[(1, 100)]));
        active.finish_epoch_change(EpochChangeEvent::EpochInfoPersisted(Ok(())));
        active.finish_epoch_change(EpochChangeEvent::ChangeEpochSigned(signature));
        active.finish_epoch_change(EpochChangeEvent::NewEpochBegun(Ok(())));
    }
    assert_eq!(active.state.change_epoch_tx.len(), 1);
    assert_eq!(active.state.change_epoch_tx[0].1.signature, vec![2]);
}

#[test]
fn public_keys_decode_from_exactly_thirty_two_bytes() {
    assert!(PublicKeyBytes::try_from_bytes(&vec![1u8; 31]).is_none());
    assert!(PublicKeyBytes::try_from_bytes(&vec![1u8; 33]).is_none());
    let k = PublicKeyBytes::try_from_bytes(&vec![3u8; 32]).unwrap();
    assert!(same_key(&k, &key(3)));
    assert!(!same_key(&k, &key(4)));
}

#[test]
fn committee_new_keeps_last_stake_per_key() {
    let c = Committee::new(2, vec![(key(1), 1), (key(1), 3), (key(2), 4)]);
    assert_eq!(c.epoch, 2);
    assert_eq!(c.size(), 2);
    assert_eq!(c.stake_of(&key(1)), Some(3));
}
