//! The grace window extends the payment deadline; the deadline itself is
//! exclusive.

use comebackhere::invoice::{InvoiceContract, InvoiceError, InvoiceStatus, MaybeAddress, MaybeBytes};

fn setup() -> (u64, InvoiceContract) {
    let admin = 1;
    let mut client = InvoiceContract::new();
    client.initialize(admin).unwrap();
    (admin, client)
}

fn create_invoice_expiring_in(client: &mut InvoiceContract, expires_in: u64) -> u64 {
    client
        .create_invoice(
            2,
            10_000_000,
            10_250_000,
            expires_in,
            MaybeBytes::None,
            MaybeBytes::None,
            0,
            MaybeAddress::None,
            0,
        )
        .unwrap()
}

#[test]
fn test_payment_at_exact_expiry_no_grace_is_rejected() {
    let (admin, mut client) = setup();
    let payer = 3;
    let id = create_invoice_expiring_in(&mut client, 100);
    let err = client.mark_paid(admin, id, payer, MaybeBytes::None, MaybeAddress::None, 100).unwrap_err();
    assert_eq!(err, InvoiceError::Expired);
    assert_eq!(client.get_invoice(id).unwrap().status, InvoiceStatus::Pending);
}

#[test]
fn test_payment_one_second_before_grace_deadline_succeeds() {
    let (admin, mut client) = setup();
    let payer = 3;
    let id = create_invoice_expiring_in(&mut client, 100);
    client.set_grace_window(admin, 30).unwrap();
    client.mark_paid(admin, id, payer, MaybeBytes::None, MaybeAddress::None, 129).unwrap();
    assert_eq!(client.get_invoice(id).unwrap().status, InvoiceStatus::Paid);
}

#[test]
fn test_payment_at_exact_grace_deadline_is_rejected() {
    let (admin, mut client) = setup();
    let payer = 3;
    let id = create_invoice_expiring_in(&mut client, 100);
    client.set_grace_window(admin, 30).unwrap();
    let err = client.mark_paid(admin, id, payer, MaybeBytes::None, MaybeAddress::None, 130).unwrap_err();
    assert_eq!(err, InvoiceError::Expired);
    assert_eq!(client.get_invoice(id).unwrap().status, InvoiceStatus::Pending);
}

#[test]
fn grace_window_beyond_the_clock_keeps_the_invoice_payable() {
    let (admin, mut client) = setup();
    let id = create_invoice_expiring_in(&mut client, 100);
    client.set_grace_window(admin, u64::MAX).unwrap();
    assert!(client.mark_paid(admin, id, 3, MaybeBytes::None, MaybeAddress::None, u64::MAX).is_ok());
    assert_eq!(client.get_invoice(id).unwrap().status, InvoiceStatus::Paid);
}
