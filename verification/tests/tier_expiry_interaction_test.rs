//! The tier is metadata stored independently of allow status: allow expiry
//! never clears it.

use comebackhere::compliance::ComplianceContract;

fn setup() -> (u64, u64, ComplianceContract) {
    let now = 1_000;
    let admin = 1;
    let mut client = ComplianceContract::new();
    client.initialize(admin).unwrap();
    (now, admin, client)
}

#[test]
fn tier_then_expiring_allow_keeps_tier_after_expiry() {
    let (mut now, admin, mut client) = setup();
    let addr = 50;
    client.allow_address_with_tier(admin, addr, 2).unwrap();
    client.allow_address_until(admin, addr, 2_000).unwrap();

    assert!(client.is_allowed(addr, now));
    assert_eq!(client.get_address_tier(addr), 2);

    now = 2_000;
    assert!(!client.is_allowed(addr, now));
    assert_eq!(client.get_address_tier(addr), 2);
}

#[test]
fn expiring_allow_then_tier_makes_allow_permanent() {
    let (mut now, admin, mut client) = setup();
    let addr = 50;
    client.allow_address_until(admin, addr, 2_000).unwrap();
    client.allow_address_with_tier(admin, addr, 1).unwrap();

    now = 5_000;
    assert!(client.is_allowed(addr, now));
    assert_eq!(client.get_address_tier(addr), 1);
    assert_eq!(client.get_allow_expiry(addr), None);
}

#[test]
fn sweep_expired_does_not_clear_tier() {
    let (mut now, admin, mut client) = setup();
    let addr = 50;
    client.allow_address_with_tier(admin, addr, 3).unwrap();
    client.allow_address_until(admin, addr, 2_000).unwrap();

    now = 3_000;
    client.sweep_expired(admin, now).unwrap();
    assert!(!client.is_allowed(addr, now));
    assert_eq!(client.get_address_tier(addr), 3);
}

#[test]
fn reallow_after_expiry_restores_access_with_same_tier() {
    let (mut now, admin, mut client) = setup();
    let addr = 50;
    client.allow_address_with_tier(admin, addr, 2).unwrap();
    client.allow_address_until(admin, addr, 2_000).unwrap();

    now = 3_000;
    assert!(!client.is_allowed(addr, now));
    client.allow_address_until(admin, addr, 4_000).unwrap();
    assert!(client.is_allowed(addr, now));
    assert_eq!(client.get_address_tier(addr), 2);
}

#[test]
fn untiered_expired_address_reports_default_tier() {
    let (mut now, admin, mut client) = setup();
    let addr = 50;
    client.allow_address_until(admin, addr, 2_000).unwrap();
    now = 2_000;
    assert!(!client.is_allowed(addr, now));
    assert_eq!(client.get_address_tier(addr), 0);
}
