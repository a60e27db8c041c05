//! Input validation rules shared by the invoice entrypoints.
use vstd::prelude::*;

use super::types::bytes_view;
use super::types::maybe_bytes_len;
use super::types::InvoiceError;
use super::types::MaybeBytes;
use super::types::MAX_EXPIRY_SECONDS;
use super::types::MAX_HASH_BYTES;
use super::types::PAYMENT_LINK_HASH_BYTES;
use super::types::USDC_FACTOR;

verus! {

/// The first rule the amount pair breaks, if any: it must be positive with
/// `gross >= amount` (`InvalidAmount`), and both must be at least one USDC,
/// `USDC_FACTOR` stroops (`AmountPrecision`).
pub open spec fn amount_error(amount: i128, gross: i128) -> Option<InvoiceError> {
    if amount <= 0 || gross < amount {
        Some(InvoiceError::InvalidAmount)
    } else if amount < USDC_FACTOR || gross < USDC_FACTOR {
        Some(InvoiceError::AmountPrecision)
    } else {
        None
    }
}

/// The first rule the invoice lifetime breaks, if any.
pub open spec fn duration_error(expires_in_seconds: u64) -> Option<InvoiceError> {
    if expires_in_seconds == 0 {
        Some(InvoiceError::ZeroDuration)
    } else if expires_in_seconds > MAX_EXPIRY_SECONDS {
        Some(InvoiceError::ExpiryTooLong)
    } else {
        None
    }
}

/// Whether an optional hash is within `MAX_HASH_BYTES`.
pub open spec fn hash_len_ok(h: Option<Seq<u8>>) -> bool {
    match h {
        Some(b) => b.len() <= MAX_HASH_BYTES,
        None => true,
    }
}

/// Whether an optional payment link hash is absent or exactly
/// `PAYMENT_LINK_HASH_BYTES` long.
pub open spec fn payment_link_ok(h: Option<Seq<u8>>) -> bool {
    match h {
        Some(b) => b.len() == PAYMENT_LINK_HASH_BYTES,
        None => true,
    }
}

/// Checks the amount pair.
pub fn check_amounts(amount: i128, gross: i128) -> (r: Result<(), InvoiceError>)
    ensures
        r == match amount_error(amount, gross) {
            Some(e) => Err(e),
            None => Ok::<(), InvoiceError>(()),
        },
{
    if amount <= 0 || gross < amount {
        return Err(InvoiceError::InvalidAmount);
    }
    if amount < USDC_FACTOR || gross < USDC_FACTOR {
        return Err(InvoiceError::AmountPrecision);
    }
    Ok(())
}

/// Checks the invoice lifetime.
pub fn check_duration(expires_in_seconds: u64) -> (r: Result<(), InvoiceError>)
    ensures
        r == match duration_error(expires_in_seconds) {
            Some(e) => Err(e),
            None => Ok::<(), InvoiceError>(()),
        },
{
    if expires_in_seconds == 0 {
        return Err(InvoiceError::ZeroDuration);
    }
    if expires_in_seconds > MAX_EXPIRY_SECONDS {
        return Err(InvoiceError::ExpiryTooLong);
    }
    Ok(())
}

/// Checks that an optional hash is within `MAX_HASH_BYTES`.
pub fn check_hash_len(h: &MaybeBytes) -> (r: Result<(), InvoiceError>)
    ensures
        hash_len_ok(bytes_view(*h)) ==> r is Ok,
        !hash_len_ok(bytes_view(*h)) ==> r == Err::<(), InvoiceError>(InvoiceError::HashTooLong),
{
    if maybe_bytes_len(h) > MAX_HASH_BYTES as usize {
        return Err(InvoiceError::HashTooLong);
    }
    Ok(())
}

/// Checks that an optional payment link hash has the required length.
pub fn check_payment_link(h: &MaybeBytes) -> (r: Result<(), InvoiceError>)
    ensures
        payment_link_ok(bytes_view(*h)) ==> r is Ok,
        !payment_link_ok(bytes_view(*h)) ==> r == Err::<(), InvoiceError>(InvoiceError::InvalidPaymentLinkHash),
{
    match h {
        Some(b) => if b.len() != PAYMENT_LINK_HASH_BYTES as usize {
            Err(InvoiceError::InvalidPaymentLinkHash)
        } else {
            Ok(())
        },
        None => Ok(()),
    }
}

} // verus!
