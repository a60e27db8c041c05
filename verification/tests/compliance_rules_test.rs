//! Concrete scenarios for the compliance contract's rules and error variants.

use comebackhere::compliance::{
    AddressState, ComplianceContract, ContractError, BULK_OP_COOLDOWN_SECS, MAX_BATCH_SIZE,
};

const ADMIN: u64 = 1;

fn setup() -> ComplianceContract {
    let mut c = ComplianceContract::new();
    c.initialize(ADMIN).unwrap();
    c
}

#[test]
fn initialize_twice_is_refused() {
    let mut c = setup();
    assert_eq!(c.initialize(2), Err(ContractError::AlreadyInitialized));
    assert!(c.allow_address(ADMIN, 10).is_ok());
    assert_eq!(c.allow_address(2, 11), Err(ContractError::Unauthorized));
}

#[test]
fn bulk_allow_rejects_oversized_batch() {
    let mut c = setup();
    let batch: Vec<u64> = (100..100 + MAX_BATCH_SIZE as u64 + 1).collect();
    assert_eq!(c.bulk_allow_addresses(ADMIN, &batch, 0), Err(ContractError::BatchTooLarge));
    assert!(!c.is_allowed(100, 0));
    let ok: Vec<u64> = (100..100 + MAX_BATCH_SIZE as u64).collect();
    assert!(c.bulk_allow_addresses(ADMIN, &ok, 0).is_ok());
    assert!(c.is_allowed(100, 0));
}

#[test]
fn bulk_cooldown_applies_per_entrypoint() {
    let mut c = setup();
    c.bulk_allow_addresses(ADMIN, &vec![5], 1_000).unwrap();
    assert_eq!(
        c.bulk_allow_addresses(ADMIN, &vec![6], 1_000 + BULK_OP_COOLDOWN_SECS - 1),
        Err(ContractError::BulkOperationCooldown)
    );
    assert!(!c.is_allowed(6, 1_000));
    // The block side keeps its own clock.
    assert!(c.bulk_block_addresses(ADMIN, &vec![7], 1_001).is_ok());
    assert_eq!(
        c.bulk_block_addresses(ADMIN, &vec![8], 1_002),
        Err(ContractError::BulkOperationCooldown)
    );
    assert!(c.bulk_allow_addresses(ADMIN, &vec![6], 1_000 + BULK_OP_COOLDOWN_SECS).is_ok());
    assert!(c.is_allowed(6, 2_000));
}

#[test]
fn sweep_expired_reports_lapsed_allows_in_index_order() {
    let mut c = setup();
    c.allow_address_until(ADMIN, 30, 500).unwrap();
    c.allow_address(ADMIN, 31).unwrap();
    c.allow_address_until(ADMIN, 32, 900).unwrap();
    c.allow_address_until(ADMIN, 33, 5_000).unwrap();
    assert_eq!(c.sweep_expired(2, 1_000), Err(ContractError::Unauthorized));
    let swept = c.sweep_expired(ADMIN, 1_000).unwrap();
    assert_eq!(swept, vec![30, 32]);
    assert_eq!(c.get_allow_expiry(30), None);
    assert_eq!(c.get_allow_expiry(33), Some(5_000));
    assert!(c.is_allowed(31, 1_000));
    assert!(c.is_allowed(33, 1_000));
    assert!(c.sweep_expired(ADMIN, 1_000).unwrap().is_empty());
}

#[test]
fn sweep_keeps_every_decision_from_the_sweep_time_on() {
    let mut c = setup();
    c.allow_address_until(ADMIN, 30, 500).unwrap();
    c.allow_address(ADMIN, 31).unwrap();
    c.block_address_until(ADMIN, 32, 700, None).unwrap();
    c.allow_address_until(ADMIN, 33, 5_000).unwrap();
    let before: Vec<bool> = (30..34).map(|a| c.is_allowed(a, 1_000)).collect();
    c.sweep_expired(ADMIN, 1_000).unwrap();
    let after: Vec<bool> = (30..34).map(|a| c.is_allowed(a, 1_000)).collect();
    assert_eq!(before, after);
}

#[test]
fn address_status_reports_each_state() {
    let mut c = setup();
    c.allow_address(ADMIN, 40).unwrap();
    c.allow_address_until(ADMIN, 41, 100).unwrap();
    c.block_address(ADMIN, 42, None).unwrap();
    assert_eq!(c.address_status(ADMIN, 40, 200), Ok(AddressState::Allowed));
    assert_eq!(c.address_status(ADMIN, 41, 99), Ok(AddressState::Allowed));
    assert_eq!(c.address_status(ADMIN, 41, 100), Ok(AddressState::Expired));
    assert_eq!(c.address_status(ADMIN, 42, 200), Ok(AddressState::Blocked));
    assert_eq!(c.address_status(ADMIN, 43, 200), Ok(AddressState::Blocked));
    assert_eq!(c.address_status(9, 40, 200), Err(ContractError::Unauthorized));
}

#[test]
fn a_lapsed_time_bound_block_reports_expired() {
    let mut c = setup();
    c.block_address_until(ADMIN, 44, 100, None).unwrap();
    assert_eq!(c.address_status(ADMIN, 44, 99), Ok(AddressState::Blocked));
    assert_eq!(c.address_status(ADMIN, 44, 100), Ok(AddressState::Expired));
    assert_eq!(c.address_status(ADMIN, 44, 500), Ok(AddressState::Expired));
}

#[test]
fn export_snapshot_offset_and_limit() {
    let mut c = setup();
    for a in 50..55u64 {
        c.allow_address(ADMIN, a).unwrap();
    }
    c.block_address(ADMIN, 52, None).unwrap();
    let all = c.export_snapshot(ADMIN, 0, 0, 0);
    assert_eq!(all.len(), 5);
    assert_eq!(all[2], (52, AddressState::Blocked));
    let mid = c.export_snapshot(ADMIN, 1, 2, 0);
    assert_eq!(mid, vec![(51, AddressState::Allowed), (52, AddressState::Blocked)]);
    assert!(c.export_snapshot(ADMIN, 5, 3, 0).is_empty());
    assert_eq!(c.export_snapshot(ADMIN, 3, 0, 0).len(), 2);
    assert_eq!(c.export_snapshot_page(ADMIN, 4, 10, 0), vec![(54, AddressState::Allowed)]);
}

#[test]
fn admin_handover_is_two_step() {
    let mut c = setup();
    assert_eq!(c.transfer_admin(3, 4), Err(ContractError::Unauthorized));
    c.transfer_admin(ADMIN, 4).unwrap();
    // Until the nominee accepts, the old admin stays in charge.
    assert!(c.allow_address(ADMIN, 60).is_ok());
    assert_eq!(c.accept_admin(5), Err(ContractError::Unauthorized));
    c.accept_admin(4).unwrap();
    assert_eq!(c.allow_address(ADMIN, 61), Err(ContractError::Unauthorized));
    assert!(c.allow_address(4, 61).is_ok());
}

#[test]
fn revoke_and_clear() {
    let mut c = setup();
    c.allow_address_until(ADMIN, 70, 1_000).unwrap();
    c.block_address(ADMIN, 70, None).unwrap();
    assert!(!c.is_allowed(70, 0));
    // Clearing lifts the block and keeps the older expiry.
    c.clear_address(ADMIN, 70).unwrap();
    assert!(c.is_allowed(70, 999));
    assert!(!c.is_allowed(70, 1_000));
    c.revoke_allow(ADMIN, 70).unwrap();
    assert!(!c.is_allowed(70, 0));
    assert!(!c.is_blocked(70));
}

#[test]
fn pause_changes_no_decision() {
    let mut c = setup();
    c.allow_address(ADMIN, 80).unwrap();
    c.block_address(ADMIN, 81, None).unwrap();
    let before = c.bulk_check_addresses(&vec![80, 81, 82], 10);
    c.pause(ADMIN).unwrap();
    assert_eq!(c.bulk_check_addresses(&vec![80, 81, 82], 10), before);
    assert_eq!(c.pause(2), Err(ContractError::Unauthorized));
    c.unpause(ADMIN).unwrap();
    assert_eq!(c.bulk_check_addresses(&vec![80, 81, 82], 10), vec![true, false, false]);
}

#[test]
fn bulk_allow_counts_each_new_address_once() {
    let mut c = setup();
    c.allow_address(ADMIN, 70).unwrap();
    assert_eq!(c.allow_count, 1);
    c.bulk_allow_addresses(ADMIN, &vec![70, 71, 71, 72], 0).unwrap();
    assert_eq!(c.allow_count, 3);
    assert!(c.is_allowed(71, 0) && c.is_allowed(72, 0));
}
