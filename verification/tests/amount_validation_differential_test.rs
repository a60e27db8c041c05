//! Differential test of invoice amount validation against an independent
//! reference of the documented rules: both amounts positive, `gross >= amount`,
//! and both at least `USDC_FACTOR` stroops.

use comebackhere::invoice::{InvoiceContract, MaybeAddress, MaybeBytes};

const USDC_FACTOR: i128 = 10_000_000;

fn reference_validate(amount_usdc: i128, gross_usdc: i128) -> bool {
    amount_usdc > 0
        && gross_usdc >= amount_usdc
        && amount_usdc >= USDC_FACTOR
        && gross_usdc >= USDC_FACTOR
}

fn rust_validate(amount_usdc: i128, gross_usdc: i128) -> bool {
    let mut client = InvoiceContract::new();
    client.initialize(1).unwrap();
    client
        .create_invoice(
            2,
            amount_usdc,
            gross_usdc,
            3600,
            MaybeBytes::None,
            MaybeBytes::None,
            0,
            MaybeAddress::None,
            0,
        )
        .is_ok()
}

#[test]
fn differential_fuzz_canonical_test_cases() {
    let test_cases: &[(i128, i128)] = &[
        (-1, USDC_FACTOR),
        (-USDC_FACTOR, USDC_FACTOR),
        (i128::MIN, i128::MAX),
        (0, 0),
        (0, USDC_FACTOR),
        (USDC_FACTOR, USDC_FACTOR - 1),
        (2 * USDC_FACTOR, USDC_FACTOR),
        (1, 1),
        (100, USDC_FACTOR),
        (USDC_FACTOR - 1, USDC_FACTOR - 1),
        (USDC_FACTOR - 1, USDC_FACTOR),
        (USDC_FACTOR, USDC_FACTOR - 1),
        (USDC_FACTOR, USDC_FACTOR),
        (USDC_FACTOR, 2 * USDC_FACTOR),
        (10 * USDC_FACTOR, 10 * USDC_FACTOR),
        (100 * USDC_FACTOR, 100 * USDC_FACTOR),
        (1000 * USDC_FACTOR, 1000 * USDC_FACTOR),
        (i128::MAX / 2, i128::MAX / 2),
        (i128::MAX, i128::MAX),
    ];

    for &(amount, gross) in test_cases {
        let rust_ok = rust_validate(amount, gross);
        let reference_ok = reference_validate(amount, gross);
        assert_eq!(
            rust_ok, reference_ok,
            "Differential mismatch for amount={} gross={}: contract said {}, reference said {}",
            amount, gross, rust_ok, reference_ok
        );
    }
}

#[test]
fn differential_fuzz_boundary_cases() {
    let boundaries: &[i128] = &[
        USDC_FACTOR - 2,
        USDC_FACTOR - 1,
        USDC_FACTOR,
        USDC_FACTOR + 1,
        USDC_FACTOR + 2,
        2 * USDC_FACTOR - 1,
        2 * USDC_FACTOR,
        2 * USDC_FACTOR + 1,
    ];

    for &a in boundaries {
        for &g in boundaries {
            if a > 0 && g > 0 && g >= a {
                let rust_ok = rust_validate(a, g);
                let reference_ok = reference_validate(a, g);
                assert_eq!(
                    rust_ok, reference_ok,
                    "Differential mismatch at boundary: amount={} gross={}",
                    a, g
                );
            }
        }
    }
}

#[test]
fn differential_fuzz_off_by_one() {
    let values: &[i128] = &[
        USDC_FACTOR - 1,
        USDC_FACTOR,
        USDC_FACTOR + 1,
        10 * USDC_FACTOR - 1,
        10 * USDC_FACTOR,
        10 * USDC_FACTOR + 1,
    ];

    for &amount in values {
        for &gross in values {
            if amount > 0 && gross >= amount {
                let rust_ok = rust_validate(amount, gross);
                let reference_ok = reference_validate(amount, gross);
                assert_eq!(
                    rust_ok, reference_ok,
                    "Off-by-one mismatch: amount={} gross={}",
                    amount, gross
                );
            }
        }
    }
}
