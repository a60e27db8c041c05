//! Refund verification and fee arithmetic.
use vstd::prelude::*;

use super::types::Invoice;
use super::types::InvoiceError;
use super::types::InvoiceView;
use super::types::NetRefund;
use super::types::MAX_FEE_BPS;
use super::types::REFUND_NETWORK_FEE;

verus! {

/// Whether the invoice describes a completed payment that can be refunded:
/// the payment was timestamped, the payer is known and `0 < amount <= gross`.
pub open spec fn payment_state_consistent(inv: InvoiceView) -> bool {
    &&& inv.paid_at is Some
    &&& inv.payer is Some
    &&& inv.amount_usdc > 0
    &&& inv.gross_usdc >= inv.amount_usdc
}

/// Verifies that the invoice describes a completed payment; otherwise
/// `PaymentStateInconsistent`.
pub fn verify_payment_state(invoice: &Invoice) -> (r: Result<(), InvoiceError>)
    ensures
        payment_state_consistent(invoice@) ==> r is Ok,
        !payment_state_consistent(invoice@) ==> r == Err::<(), InvoiceError>(
            InvoiceError::PaymentStateInconsistent,
        ),
{
    if invoice.paid_at.is_none() {
        return Err(InvoiceError::PaymentStateInconsistent);
    }
    if invoice.payer.is_none() {
        return Err(InvoiceError::PaymentStateInconsistent);
    }
    if invoice.amount_usdc <= 0 || invoice.gross_usdc < invoice.amount_usdc {
        return Err(InvoiceError::PaymentStateInconsistent);
    }
    Ok(())
}

/// The address a refund must be paid to: the payer recorded at payment.
pub fn refund_recipient(invoice: &Invoice) -> (r: Result<u64, InvoiceError>)
    ensures
        r == match invoice.payer {
            Some(p) => Ok::<u64, InvoiceError>(p),
            None => Err(InvoiceError::PaymentStateInconsistent),
        },
{
    match invoice.payer {
        Some(p) => Ok(p),
        None => Err(InvoiceError::PaymentStateInconsistent),
    }
}

/// The refund breakdown for `gross` under `fee_bps`: a processing fee of
/// `gross * fee_bps / 10_000` (rounded down), the flat network fee, and the
/// remainder, floored at zero, as the payout.
pub open spec fn net_refund_spec(gross: i128, fee_bps: u32) -> Result<NetRefund, InvoiceError> {
    if fee_bps > MAX_FEE_BPS {
        Err(InvoiceError::RefundFeeTooHigh)
    } else if gross <= 0 {
        Err(InvoiceError::InvalidAmount)
    } else if gross * fee_bps > i128::MAX {
        Err(InvoiceError::ArithmeticOverflow)
    } else {
        let processing = (gross * fee_bps) / 10_000;
        let rest = gross - processing - REFUND_NETWORK_FEE;
        Ok(
            NetRefund {
                gross_amount: gross,
                processing_fee: processing as i128,
                network_fee: REFUND_NETWORK_FEE,
                net_amount: if rest < 0 {
                    0
                } else {
                    rest as i128
                },
            },
        )
    }
}

/// Computes the refund breakdown for `gross_amount` under `fee_bps`.
pub fn calculate_net_refund(gross_amount: i128, fee_bps: u32) -> (r: Result<
    NetRefund,
    InvoiceError,
>)
    ensures
        r == net_refund_spec(gross_amount, fee_bps),
{
    if fee_bps > MAX_FEE_BPS {
        return Err(InvoiceError::RefundFeeTooHigh);
    }
    if gross_amount <= 0 {
        return Err(InvoiceError::InvalidAmount);
    }
    let scaled = match gross_amount.checked_mul(fee_bps as i128) {
        Some(v) => v,
        None => {
            return Err(InvoiceError::ArithmeticOverflow);
        },
    };
    let processing = scaled / 10_000;
    assert(0 <= processing <= gross_amount) by (nonlinear_arith)
        requires
            processing == scaled / 10_000,
            scaled == gross_amount * fee_bps,
            0 <= fee_bps <= 10_000,
            gross_amount > 0,
    ;
    let rest = gross_amount - processing - REFUND_NETWORK_FEE;
    let net = if rest < 0 {
        0
    } else {
        rest
    };
    Ok(
        NetRefund {
            gross_amount,
            processing_fee: processing,
            network_fee: REFUND_NETWORK_FEE,
            net_amount: net,
        },
    )
}

/// The payout never exceeds the gross amount and is never negative, and the
/// payout plus the two fees covers the gross exactly unless the payout was
/// floored at zero.
pub proof fn law_net_refund_bounds(gross: i128, fee_bps: u32)
    ensures
        net_refund_spec(gross, fee_bps) matches Ok(n) ==> {
            &&& 0 <= n.net_amount <= n.gross_amount
            &&& 0 <= n.processing_fee <= n.gross_amount
            &&& n.gross_amount == gross
            &&& (n.net_amount > 0 ==> n.net_amount + n.processing_fee + n.network_fee
                == n.gross_amount)
            &&& (n.net_amount == 0 ==> n.processing_fee + n.network_fee >= n.gross_amount)
        },
{
    if net_refund_spec(gross, fee_bps) is Ok {
        let p = (gross * fee_bps) / 10_000;
        assert(0 <= p <= gross) by (nonlinear_arith)
            requires
                p == (gross * fee_bps) / 10_000,
                0 <= fee_bps <= 10_000,
                gross > 0,
        ;
    }
}

/// A zero fee leaves only the network fee deducted, and a full fee refunds
/// nothing.
pub proof fn law_net_refund_extremes(gross: i128)
    requires
        gross > 0,
    ensures
        net_refund_spec(gross, 0) matches Ok(n) && n.processing_fee == 0,
        gross * 10_000 <= i128::MAX ==> (net_refund_spec(gross, 10_000) matches Ok(n)
            && n.processing_fee == gross && n.net_amount == 0),
{
}

} // verus!
