//! Data types of the invoice contract.
use vstd::prelude::*;

use crate::seq_util::copy_bytes;

verus! {

/// USDC on Stellar uses 7 decimal places: 1 USDC = 10_000_000 stroops.
pub const USDC_FACTOR: i128 = 10_000_000;

/// Maximum number of invoices accepted by one `batch_create_invoice` call.
pub const MAX_BATCH_SIZE: u32 = 50;

/// Maximum number of invoice IDs accepted by one `batch_expire` call.
pub const MAX_BATCH_EXPIRE: u32 = 100;

/// Maximum bytes accepted for an optional invoice hash field.
pub const MAX_HASH_BYTES: u32 = 64;

/// Exact length of a payment link hash, when one is given.
pub const PAYMENT_LINK_HASH_BYTES: u32 = 32;

/// Longest accepted invoice lifetime, in seconds (365 days).
pub const MAX_EXPIRY_SECONDS: u64 = 31_536_000;

/// Largest refund processing fee, in basis points (100%).
pub const MAX_FEE_BPS: u32 = 10_000;

/// Flat network fee deducted from every refund payout, in stroops. Far below
/// `USDC_FACTOR`, so even the smallest invoice refunds a positive amount.
pub const REFUND_NETWORK_FEE: i128 = 100_000;

/// Errors returned by the invoice contract.
#[derive(Clone, Copy, Debug, PartialEq, Eq, Structural)]
pub enum InvoiceError {
    AlreadyInitialized,
    Unauthorized,
    ContractPaused,
    NotFound,
    NotPending,
    NotPaid,
    Expired,
    InvalidAmount,
    AmountPrecision,
    ZeroDuration,
    ExpiryTooLong,
    ExpiryOverflow,
    InvoiceCountOverflow,
    DuplicateNonce,
    HashTooLong,
    InvalidPaymentLinkHash,
    MetadataMismatch,
    TokenMismatch,
    NoPendingAdmin,
    BatchTooLarge,
    NotRefundRequested,
    PaymentStateInconsistent,
    RefundTokenNotSet,
    RefundFeeTooHigh,
    RefundTransferFailed,
    ArithmeticOverflow,
}

/// Lifecycle status of an invoice.
#[derive(Clone, Copy, Debug, PartialEq, Eq, Structural)]
pub enum InvoiceStatus {
    Pending,
    Paid,
    Expired,
    Cancelled,
    RefundRequested,
    /// Escrow funds have been released to the merchant.
    Released,
    /// The refund was approved; terminal status for disputed invoices.
    Refunded,
}

/// An optional address.
pub type MaybeAddress = Option<u64>;

/// An optional byte string.
pub type MaybeBytes = Option<Vec<u8>>;

/// The content of an optional byte string.
pub open spec fn bytes_view(b: MaybeBytes) -> Option<Seq<u8>> {
    match b {
        None => None,
        Some(v) => Some(v@),
    }
}

/// A copy of an optional byte string holding the same bytes.
pub fn copy_maybe_bytes(b: &MaybeBytes) -> (r: MaybeBytes)
    ensures
        bytes_view(r) == bytes_view(*b),
{
    match b {
        None => None,
        Some(v) => Some(copy_bytes(v)),
    }
}

/// The number of bytes held (`0` for `None`).
pub fn maybe_bytes_len(b: &MaybeBytes) -> (r: usize)
    ensures
        r == match bytes_view(*b) {
            None => 0,
            Some(v) => v.len(),
        },
{
    match b {
        None => 0,
        Some(v) => v.len(),
    }
}

/// A stored invoice.
#[derive(Clone, Debug, PartialEq, Eq)]
pub struct Invoice {
    pub id: u64,
    pub merchant: u64,
    pub amount_usdc: i128,
    pub gross_usdc: i128,
    pub status: InvoiceStatus,
    pub expires_at: u64,
    pub paid_at: Option<u64>,
    pub payer: MaybeAddress,
    pub metadata_hash: MaybeBytes,
    pub payment_link_hash: MaybeBytes,
    /// Merchant-supplied nonce for storefront idempotency (`0` = no nonce).
    pub merchant_nonce: u64,
    /// Token the invoice is denominated in; `None` means the default (USDC).
    pub token_address: MaybeAddress,
}

/// The mathematical content of an [`Invoice`].
pub struct InvoiceView {
    pub id: u64,
    pub merchant: u64,
    pub amount_usdc: i128,
    pub gross_usdc: i128,
    pub status: InvoiceStatus,
    pub expires_at: u64,
    pub paid_at: Option<u64>,
    pub payer: MaybeAddress,
    pub metadata_hash: Option<Seq<u8>>,
    pub payment_link_hash: Option<Seq<u8>>,
    pub merchant_nonce: u64,
    pub token_address: MaybeAddress,
}

impl View for Invoice {
    type V = InvoiceView;

    open spec fn view(&self) -> InvoiceView {
        InvoiceView {
            id: self.id,
            merchant: self.merchant,
            amount_usdc: self.amount_usdc,
            gross_usdc: self.gross_usdc,
            status: self.status,
            expires_at: self.expires_at,
            paid_at: self.paid_at,
            payer: self.payer,
            metadata_hash: bytes_view(self.metadata_hash),
            payment_link_hash: bytes_view(self.payment_link_hash),
            merchant_nonce: self.merchant_nonce,
            token_address: self.token_address,
        }
    }
}

impl Invoice {
    /// A copy with the same content.
    pub fn copy(&self) -> (r: Invoice)
        ensures
            r@ == self@,
    {
        Invoice {
            id: self.id,
            merchant: self.merchant,
            amount_usdc: self.amount_usdc,
            gross_usdc: self.gross_usdc,
            status: self.status,
            expires_at: self.expires_at,
            paid_at: self.paid_at,
            payer: self.payer,
            metadata_hash: copy_maybe_bytes(&self.metadata_hash),
            payment_link_hash: copy_maybe_bytes(&self.payment_link_hash),
            merchant_nonce: self.merchant_nonce,
            token_address: self.token_address,
        }
    }
}

/// Parameters of one invoice in a `batch_create_invoice` call.
#[derive(Clone, Debug, PartialEq, Eq)]
pub struct BatchInvoiceParams {
    pub amount_usdc: i128,
    pub gross_usdc: i128,
    pub expires_in_seconds: u64,
    pub metadata_hash: MaybeBytes,
    pub payment_link_hash: MaybeBytes,
    pub merchant_nonce: u64,
    pub token_address: MaybeAddress,
}

/// The mathematical content of [`BatchInvoiceParams`].
pub struct BatchInvoiceParamsView {
    pub amount_usdc: i128,
    pub gross_usdc: i128,
    pub expires_in_seconds: u64,
    pub metadata_hash: Option<Seq<u8>>,
    pub payment_link_hash: Option<Seq<u8>>,
    pub merchant_nonce: u64,
    pub token_address: MaybeAddress,
}

impl View for BatchInvoiceParams {
    type V = BatchInvoiceParamsView;

    open spec fn view(&self) -> BatchInvoiceParamsView {
        BatchInvoiceParamsView {
            amount_usdc: self.amount_usdc,
            gross_usdc: self.gross_usdc,
            expires_in_seconds: self.expires_in_seconds,
            metadata_hash: bytes_view(self.metadata_hash),
            payment_link_hash: bytes_view(self.payment_link_hash),
            merchant_nonce: self.merchant_nonce,
            token_address: self.token_address,
        }
    }
}

/// One status transition in an invoice's audit log.
#[derive(Clone, Copy, Debug, PartialEq, Eq, Structural)]
pub struct StatusTransition {
    pub from: InvoiceStatus,
    pub to: InvoiceStatus,
    pub timestamp: u64,
}

/// The fee breakdown of a refund: the payer receives `net_amount`.
#[derive(Clone, Copy, Debug, PartialEq, Eq, Structural)]
pub struct NetRefund {
    pub gross_amount: i128,
    pub processing_fee: i128,
    pub network_fee: i128,
    pub net_amount: i128,
}

} // verus!
