//! Every mutating invoice entrypoint refuses with `ContractPaused` while the
//! contract is paused.

use comebackhere::invoice::{InvoiceContract, InvoiceError, MaybeAddress, MaybeBytes};

const NOW: u64 = 0;

fn setup() -> (u64, InvoiceContract) {
    let admin = 1;
    let mut client = InvoiceContract::new();
    client.initialize(admin).unwrap();
    (admin, client)
}

fn make_invoice(client: &mut InvoiceContract, merchant: u64) -> u64 {
    client
        .create_invoice(
            merchant,
            10_000_000,
            10_250_000,
            3600,
            MaybeBytes::None,
            MaybeBytes::None,
            0,
            MaybeAddress::None,
            NOW,
        )
        .unwrap()
}

fn pay(client: &mut InvoiceContract, admin: u64, id: u64, payer: u64) -> Result<(), InvoiceError> {
    client.mark_paid(admin, id, payer, MaybeBytes::None, MaybeAddress::None, NOW)
}

#[test]
fn test_create_invoice_rejected_when_paused() {
    let (admin, mut client) = setup();
    client.pause(admin).unwrap();
    let err = client
        .create_invoice(
            2,
            10_000_000,
            10_250_000,
            3600,
            MaybeBytes::None,
            MaybeBytes::None,
            0,
            MaybeAddress::None,
            NOW,
        )
        .unwrap_err();
    assert_eq!(err, InvoiceError::ContractPaused);
}

#[test]
fn test_mark_paid_rejected_when_paused() {
    let (admin, mut client) = setup();
    let id = make_invoice(&mut client, 2);
    client.pause(admin).unwrap();
    let err = pay(&mut client, admin, id, 3).unwrap_err();
    assert_eq!(err, InvoiceError::ContractPaused);
}

#[test]
fn test_release_escrow_rejected_when_paused() {
    let (admin, mut client) = setup();
    let id = make_invoice(&mut client, 2);
    pay(&mut client, admin, id, 3).unwrap();
    client.pause(admin).unwrap();
    let err = client.release_escrow(admin, id, NOW).unwrap_err();
    assert_eq!(err, InvoiceError::ContractPaused);
}

#[test]
fn test_cancel_invoice_rejected_when_paused() {
    let (admin, mut client) = setup();
    let id = make_invoice(&mut client, 2);
    client.pause(admin).unwrap();
    let err = client.cancel_invoice(admin, id, NOW).unwrap_err();
    assert_eq!(err, InvoiceError::ContractPaused);
}

#[test]
fn test_request_refund_rejected_when_paused() {
    let (admin, mut client) = setup();
    let payer = 3;
    let id = make_invoice(&mut client, 2);
    pay(&mut client, admin, id, payer).unwrap();
    client.pause(admin).unwrap();
    let err = client.request_refund(payer, id, NOW).unwrap_err();
    assert_eq!(err, InvoiceError::ContractPaused);
}

#[test]
fn test_batch_expire_rejected_when_paused() {
    let (admin, mut client) = setup();
    let id = make_invoice(&mut client, 2);
    client.pause(admin).unwrap();
    let ids = vec![id];
    let err = client.batch_expire(admin, &ids, NOW).unwrap_err();
    assert_eq!(err, InvoiceError::ContractPaused);
}
