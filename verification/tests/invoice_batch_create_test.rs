//! `batch_create_invoice` stores every invoice of a valid batch under
//! consecutive IDs, or none of them.

use comebackhere::invoice::{
    BatchInvoiceParams, InvoiceContract, InvoiceError, InvoiceStatus, MaybeAddress, MaybeBytes,
    MAX_BATCH_SIZE,
};

const USDC: i128 = 10_000_000;

fn setup() -> (u64, InvoiceContract) {
    let admin = 1;
    let mut client = InvoiceContract::new();
    client.initialize(admin).unwrap();
    (admin, client)
}

fn param(amount: i128, gross: i128) -> BatchInvoiceParams {
    BatchInvoiceParams {
        amount_usdc: amount,
        gross_usdc: gross,
        expires_in_seconds: 3600,
        metadata_hash: MaybeBytes::None,
        payment_link_hash: MaybeBytes::None,
        merchant_nonce: 0,
        token_address: MaybeAddress::None,
    }
}

fn create(client: &mut InvoiceContract, merchant: u64, nonce: u64) -> u64 {
    client
        .create_invoice(merchant, USDC, USDC, 3600, MaybeBytes::None, MaybeBytes::None, nonce, MaybeAddress::None, 0)
        .unwrap()
}

#[test]
fn test_batch_creates_invoices_and_returns_ids() {
    let (_, mut client) = setup();
    let merchant = 10;

    let params = vec![param(USDC, USDC), param(2 * USDC, 2 * USDC), param(3 * USDC, 3 * USDC)];
    let ids = client.batch_create_invoice(merchant, &params, 0).unwrap();

    assert_eq!(ids.len(), 3);
    for (i, id) in ids.iter().enumerate() {
        assert_eq!(*id, (i as u64) + 1);
        let inv = client.get_invoice(*id).unwrap();
        assert_eq!(inv.status, InvoiceStatus::Pending);
        assert_eq!(inv.merchant, merchant);
    }
}

#[test]
fn test_batch_ids_continue_from_existing_count() {
    let (_, mut client) = setup();
    let merchant = 10;

    create(&mut client, merchant, 0);

    let params = vec![param(USDC, USDC), param(USDC, USDC)];
    let ids = client.batch_create_invoice(merchant, &params, 0).unwrap();

    assert_eq!(ids[0], 2);
    assert_eq!(ids[1], 3);
}

#[test]
fn test_batch_rejects_on_any_invalid_amount() {
    let (_, mut client) = setup();
    let merchant = 10;

    let params = vec![param(USDC, USDC), param(0, 0), param(USDC, USDC)];
    assert!(client.batch_create_invoice(merchant, &params, 0).is_err());
    assert_eq!(client.get_invoice_count(), 0);
}

#[test]
fn test_batch_rejects_sub_usdc_precision() {
    let (_, mut client) = setup();
    let merchant = 10;

    let params = vec![param(USDC, USDC), param(USDC - 1, USDC)];
    assert!(client.batch_create_invoice(merchant, &params, 0).is_err());
    assert_eq!(client.get_invoice_count(), 0);
}

#[test]
fn test_batch_rejects_gross_less_than_amount() {
    let (_, mut client) = setup();
    let merchant = 10;

    let params = vec![param(USDC, USDC - 1)];
    assert!(client.batch_create_invoice(merchant, &params, 0).is_err());
}

#[test]
fn test_batch_rejects_duplicate_nonce_within_batch() {
    let (_, mut client) = setup();
    let merchant = 10;

    let mut p1 = param(USDC, USDC);
    p1.merchant_nonce = 42;
    let mut p2 = param(USDC, USDC);
    p2.merchant_nonce = 42;

    let params = vec![p1, p2];
    assert_eq!(client.batch_create_invoice(merchant, &params, 0), Err(InvoiceError::DuplicateNonce));
    assert_eq!(client.get_invoice_count(), 0);
}

#[test]
fn test_batch_rejects_nonce_already_used() {
    let (_, mut client) = setup();
    let merchant = 10;

    create(&mut client, merchant, 7);

    let mut p = param(USDC, USDC);
    p.merchant_nonce = 7;
    let params = vec![p];
    assert!(client.batch_create_invoice(merchant, &params, 0).is_err());
}

#[test]
fn test_batch_rejected_when_paused() {
    let (admin, mut client) = setup();
    let merchant = 10;
    client.pause(admin).unwrap();

    let params = vec![param(USDC, USDC)];
    assert_eq!(client.batch_create_invoice(merchant, &params, 0), Err(InvoiceError::ContractPaused));
}

#[test]
fn test_batch_amounts_stored_exactly() {
    let (_, mut client) = setup();
    let merchant = 10;

    let params = vec![param(5 * USDC, 6 * USDC), param(99 * USDC, 100 * USDC)];
    let ids = client.batch_create_invoice(merchant, &params, 0).unwrap();

    let inv0 = client.get_invoice(ids[0]).unwrap();
    assert_eq!(inv0.amount_usdc, 5 * USDC);
    assert_eq!(inv0.gross_usdc, 6 * USDC);

    let inv1 = client.get_invoice(ids[1]).unwrap();
    assert_eq!(inv1.amount_usdc, 99 * USDC);
    assert_eq!(inv1.gross_usdc, 100 * USDC);
}

#[test]
fn batch_over_the_size_cap_is_refused() {
    let (_, mut client) = setup();
    let params: Vec<BatchInvoiceParams> = (0..=MAX_BATCH_SIZE).map(|_| param(USDC, USDC)).collect();
    assert_eq!(client.batch_create_invoice(10, &params, 0), Err(InvoiceError::BatchTooLarge));
    assert_eq!(client.get_invoice_count(), 0);
}

#[test]
fn batch_invoices_join_the_merchant_listing() {
    let (_, mut client) = setup();
    let first = create(&mut client, 10, 0);
    let ids = client.batch_create_invoice(10, &vec![param(USDC, USDC)], 0).unwrap();
    assert_eq!(client.get_invoices_by_merchant(10, 0, 10), vec![first, ids[0]]);
}
