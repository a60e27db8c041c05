//! Standardised block reason codes: every `BlockReason` can be stored and read
//! back through `block_address` / `get_block_reason`, `block_address_until`
//! stores a reason too, and a block without a reason stores none.

use comebackhere::compliance::{BlockReason, ComplianceContract};

struct Env {
    next: u64,
}

impl Env {
    fn generate(&mut self) -> u64 {
        self.next += 1;
        self.next
    }
}

fn setup(env: &mut Env) -> (ComplianceContract, u64) {
    let admin = env.generate();
    let mut client = ComplianceContract::new();
    client.initialize(admin).unwrap();
    (client, admin)
}

fn reason(r: BlockReason) -> Option<Vec<u8>> {
    Some(r.to_bytes())
}

#[test]
fn block_address_without_reason_stores_none() {
    let mut env = Env { next: 0 };
    let (mut client, admin) = setup(&mut env);
    let subject = env.generate();

    client.block_address(admin, subject, None).unwrap();

    assert_eq!(client.get_block_reason(subject), None);
}

#[test]
fn block_address_sanctions_reason_is_stored_and_retrieved() {
    let mut env = Env { next: 0 };
    let (mut client, admin) = setup(&mut env);
    let subject = env.generate();

    client.block_address(admin, subject, reason(BlockReason::Sanctions)).unwrap();

    assert_eq!(client.get_block_reason(subject), reason(BlockReason::Sanctions));
}

#[test]
fn block_address_fraud_reason_is_stored_and_retrieved() {
    let mut env = Env { next: 0 };
    let (mut client, admin) = setup(&mut env);
    let subject = env.generate();

    client.block_address(admin, subject, reason(BlockReason::Fraud)).unwrap();

    assert_eq!(client.get_block_reason(subject), reason(BlockReason::Fraud));
}

#[test]
fn block_address_manual_review_reason_is_stored_and_retrieved() {
    let mut env = Env { next: 0 };
    let (mut client, admin) = setup(&mut env);
    let subject = env.generate();

    client.block_address(admin, subject, reason(BlockReason::ManualReview)).unwrap();

    assert_eq!(client.get_block_reason(subject), reason(BlockReason::ManualReview));
}

#[test]
fn block_address_court_order_reason_is_stored_and_retrieved() {
    let mut env = Env { next: 0 };
    let (mut client, admin) = setup(&mut env);
    let subject = env.generate();

    client.block_address(admin, subject, reason(BlockReason::CourtOrder)).unwrap();

    assert_eq!(client.get_block_reason(subject), reason(BlockReason::CourtOrder));
}

#[test]
fn block_address_other_reason_is_stored_and_retrieved() {
    let mut env = Env { next: 0 };
    let (mut client, admin) = setup(&mut env);
    let subject = env.generate();

    client.block_address(admin, subject, reason(BlockReason::Other)).unwrap();

    assert_eq!(client.get_block_reason(subject), reason(BlockReason::Other));
}

#[test]
fn block_address_until_with_sanctions_reason_is_stored_and_retrieved() {
    let mut env = Env { next: 0 };
    let (mut client, admin) = setup(&mut env);
    let subject = env.generate();

    let unblock_at: u64 = 9_999_999;
    client
        .block_address_until(admin, subject, unblock_at, reason(BlockReason::Sanctions))
        .unwrap();

    assert_eq!(client.get_block_reason(subject), reason(BlockReason::Sanctions));
    assert!(!client.is_allowed(subject, 0));
}

#[test]
fn block_address_until_without_reason_stores_none() {
    let mut env = Env { next: 0 };
    let (mut client, admin) = setup(&mut env);
    let subject = env.generate();

    let unblock_at: u64 = 9_999_999;
    client.block_address_until(admin, subject, unblock_at, None).unwrap();

    assert_eq!(client.get_block_reason(subject), None);
}

#[test]
fn blocked_address_reason_survives_is_blocked_check() {
    let mut env = Env { next: 0 };
    let (mut client, admin) = setup(&mut env);
    let subject = env.generate();

    client.block_address(admin, subject, reason(BlockReason::Fraud)).unwrap();

    assert!(client.is_blocked(subject));
    assert_eq!(client.get_block_reason(subject), reason(BlockReason::Fraud));
}

#[test]
fn never_blocked_address_has_no_reason() {
    let mut env = Env { next: 0 };
    let (client, _admin) = setup(&mut env);
    let subject = env.generate();

    assert_eq!(client.get_block_reason(subject), None);
}

#[test]
fn reason_codes_are_distinct() {
    let all = [
        BlockReason::Sanctions,
        BlockReason::Fraud,
        BlockReason::ManualReview,
        BlockReason::CourtOrder,
        BlockReason::Other,
    ];
    for (i, a) in all.iter().enumerate() {
        for (j, b) in all.iter().enumerate() {
            assert_eq!(i == j, a.to_bytes() == b.to_bytes());
        }
    }
    assert_eq!(BlockReason::Sanctions.to_bytes(), vec![1u8]);
}
