//! The invoice contract: invoice escrow lifecycle, validation rules and the
//! refund fee arithmetic.
pub mod contract;
pub mod laws;
pub mod refund;
pub mod types;
pub mod validation;

pub use contract::InvoiceContract;
pub use contract::InvoiceContractView;
pub use refund::calculate_net_refund;
pub use refund::refund_recipient;
pub use refund::verify_payment_state;
pub use types::bytes_view;
pub use types::copy_maybe_bytes;
pub use types::BatchInvoiceParams;
pub use types::BatchInvoiceParamsView;
pub use types::Invoice;
pub use types::InvoiceError;
pub use types::InvoiceStatus;
pub use types::InvoiceView;
pub use types::MaybeAddress;
pub use types::MaybeBytes;
pub use types::NetRefund;
pub use types::StatusTransition;
pub use types::MAX_BATCH_EXPIRE;
pub use types::MAX_BATCH_SIZE;
pub use types::MAX_EXPIRY_SECONDS;
pub use types::MAX_FEE_BPS;
pub use types::MAX_HASH_BYTES;
pub use types::PAYMENT_LINK_HASH_BYTES;
pub use types::REFUND_NETWORK_FEE;
pub use types::USDC_FACTOR;
