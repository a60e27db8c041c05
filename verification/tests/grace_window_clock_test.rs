//! Payment checks read the clock each time: a clock that moves backwards
//! makes a refused invoice payable again, and invoices sharing one expiry are
//! judged alike at the same instant.

use comebackhere::invoice::{InvoiceContract, InvoiceError, InvoiceStatus, MaybeAddress, MaybeBytes};

struct Env {
    now: u64,
    next: u64,
}

impl Env {
    fn generate(&mut self) -> u64 {
        self.next += 1;
        self.next
    }
}

fn setup() -> (Env, u64, InvoiceContract) {
    let mut env = Env { now: 0, next: 0 };
    let admin = env.generate();
    let mut client = InvoiceContract::new();
    client.initialize(admin).unwrap();
    (env, admin, client)
}

fn create_invoice_expiring_in(env: &mut Env, client: &mut InvoiceContract, expires_in: u64) -> u64 {
    let merchant = env.generate();
    client
        .create_invoice(
            merchant,
            10_000_000,
            10_250_000,
            expires_in,
            MaybeBytes::None,
            MaybeBytes::None,
            0,
            MaybeAddress::None,
            env.now,
        )
        .unwrap()
}

fn pay(env: &Env, client: &mut InvoiceContract, admin: u64, id: u64, payer: u64) -> Result<(), InvoiceError> {
    client.mark_paid(admin, id, payer, MaybeBytes::None, MaybeAddress::None, env.now)
}

#[test]
fn mark_paid_succeeds_when_ledger_timestamp_is_earlier_than_at_creation() {
    let (mut env, admin, mut client) = setup();
    env.now = 1_000;
    let payer = env.generate();
    let id = create_invoice_expiring_in(&mut env, &mut client, 100);

    env.now = 500;
    pay(&env, &mut client, admin, id, payer).unwrap();
    assert_eq!(client.get_invoice(id).unwrap().status, InvoiceStatus::Paid);
}

#[test]
fn mark_paid_rejected_then_backward_clock_jump_makes_it_payable_again() {
    let (mut env, admin, mut client) = setup();
    env.now = 1_000;
    let payer = env.generate();
    let id = create_invoice_expiring_in(&mut env, &mut client, 100);

    env.now = 1_200;
    let err = pay(&env, &mut client, admin, id, payer).unwrap_err();
    assert_eq!(err, InvoiceError::Expired);
    assert_eq!(client.get_invoice(id).unwrap().status, InvoiceStatus::Pending);

    env.now = 900;
    pay(&env, &mut client, admin, id, payer).unwrap();
    assert_eq!(client.get_invoice(id).unwrap().status, InvoiceStatus::Paid);
}

#[test]
fn mark_paid_succeeds_for_multiple_invoices_at_an_identical_flat_timestamp() {
    let (mut env, admin, mut client) = setup();
    env.now = 5_000;

    let mut ids = Vec::new();
    for _ in 0..5 {
        ids.push(create_invoice_expiring_in(&mut env, &mut client, 100));
    }

    for &id in ids.iter() {
        let payer = env.generate();
        pay(&env, &mut client, admin, id, payer).unwrap();
        assert_eq!(client.get_invoice(id).unwrap().status, InvoiceStatus::Paid);
    }
}

#[test]
fn mark_paid_rejects_multiple_invoices_at_an_identical_flat_expiry_boundary() {
    let (mut env, admin, mut client) = setup();
    env.now = 0;

    let mut ids = Vec::new();
    for _ in 0..5 {
        ids.push(create_invoice_expiring_in(&mut env, &mut client, 100));
    }

    env.now = 100;
    for &id in ids.iter() {
        let payer = env.generate();
        let err = pay(&env, &mut client, admin, id, payer).unwrap_err();
        assert_eq!(err, InvoiceError::Expired);
        assert_eq!(client.get_invoice(id).unwrap().status, InvoiceStatus::Pending);
    }
}
