//! Parametric tables for the amount rules: zero and negative amounts,
//! `gross < amount`, and amounts below `USDC_FACTOR` are rejected; pairs that
//! satisfy every rule are accepted.

use comebackhere::invoice::{InvoiceContract, InvoiceError, MaybeAddress, MaybeBytes};

const USDC_FACTOR: i128 = 10_000_000;

fn try_create(amount: i128, gross: i128) -> Result<u64, InvoiceError> {
    let mut c = InvoiceContract::new();
    c.initialize(1).unwrap();
    c.create_invoice(2, amount, gross, 3600, MaybeBytes::None, MaybeBytes::None, 0, MaybeAddress::None, 0)
}

#[test]
fn prop_zero_and_negative_amounts_rejected() {
    let cases: &[(i128, i128)] = &[
        (0, 0),
        (0, USDC_FACTOR),
        (0, i128::MAX),
        (-1, USDC_FACTOR),
        (-1, -1),
        (-USDC_FACTOR, USDC_FACTOR),
        (i128::MIN, i128::MAX),
        (i128::MIN, i128::MIN),
        (-1_000_000_000, -1_000_000_000),
        (-1_000_000_000, 0),
        (-1_000_000_000, USDC_FACTOR),
    ];

    for &(amount, gross) in cases {
        assert!(
            try_create(amount, gross).is_err(),
            "expected rejection for zero/negative amount={amount} gross={gross}"
        );
    }
}

#[test]
fn prop_gross_less_than_amount_rejected() {
    let cases: &[(i128, i128)] = &[
        (USDC_FACTOR, USDC_FACTOR - 1),
        (USDC_FACTOR + 1, USDC_FACTOR),
        (2 * USDC_FACTOR, 2 * USDC_FACTOR - 1),
        (i128::MAX, i128::MAX - 1),
        (1_000 * USDC_FACTOR, 999 * USDC_FACTOR),
    ];

    for &(amount, gross) in cases {
        assert!(
            try_create(amount, gross).is_err(),
            "expected rejection when gross < amount: amount={amount} gross={gross}"
        );
    }
}

#[test]
fn prop_below_usdc_factor_rejected() {
    let sub_factor_values: &[i128] = &[
        1,
        2,
        9,
        10,
        99,
        100,
        999,
        1_000,
        9_999,
        10_000,
        99_999,
        100_000,
        999_999,
        1_000_000,
        USDC_FACTOR - 1,
    ];

    for &v in sub_factor_values {
        assert!(
            try_create(v, USDC_FACTOR).is_err(),
            "expected AmountPrecision rejection for amount={v} (below USDC_FACTOR)"
        );
        assert!(
            try_create(USDC_FACTOR, v).is_err(),
            "expected AmountPrecision rejection for gross={v} (below USDC_FACTOR)"
        );
    }
}

#[test]
fn prop_valid_amounts_accepted() {
    let cases: &[(i128, i128)] = &[
        (USDC_FACTOR, USDC_FACTOR),
        (USDC_FACTOR, USDC_FACTOR + 1),
        (USDC_FACTOR, 2 * USDC_FACTOR),
        (10 * USDC_FACTOR, 10 * USDC_FACTOR),
        (100 * USDC_FACTOR, 100 * USDC_FACTOR),
        (i128::MAX / 2, i128::MAX / 2),
        (i128::MAX, i128::MAX),
    ];

    for &(amount, gross) in cases {
        assert!(try_create(amount, gross).is_ok(), "expected acceptance for amount={amount} gross={gross}");
    }
}

#[test]
fn each_amount_error_variant() {
    assert_eq!(try_create(0, USDC_FACTOR), Err(InvoiceError::InvalidAmount));
    assert_eq!(try_create(USDC_FACTOR, USDC_FACTOR - 1), Err(InvoiceError::InvalidAmount));
    assert_eq!(try_create(USDC_FACTOR - 1, USDC_FACTOR), Err(InvoiceError::AmountPrecision));
    assert_eq!(try_create(USDC_FACTOR, USDC_FACTOR), Ok(1));
}
