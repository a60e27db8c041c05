//! The invoice contract's storage and entrypoints.
use std::collections::HashMap;
use vstd::prelude::*;

use super::refund::calculate_net_refund;
use super::refund::net_refund_spec;
use super::refund::payment_state_consistent;
use super::refund::verify_payment_state;
use super::types::bytes_view;
use super::types::copy_maybe_bytes;
use super::types::BatchInvoiceParams;
use super::types::BatchInvoiceParamsView;
use super::types::Invoice;
use super::types::InvoiceError;
use super::types::InvoiceStatus;
use super::types::InvoiceView;
use super::types::MaybeAddress;
use super::types::MaybeBytes;
use super::types::NetRefund;
use super::types::StatusTransition;
use super::types::MAX_BATCH_EXPIRE;
use super::types::MAX_BATCH_SIZE;
use super::validation::amount_error;
use super::validation::check_amounts;
use super::validation::check_duration;
use super::validation::check_hash_len;
use super::validation::check_payment_link;
use super::validation::duration_error;
use super::validation::hash_len_ok;
use super::validation::payment_link_ok;
use crate::seq_util::bytes_equal;
use crate::seq_util::vec_contains;

verus! {

broadcast use vstd::std_specs::hash::group_hash_axioms;

/// The storage of the invoice contract.
pub struct InvoiceContract {
    /// The active administrator.
    pub admin: Option<u64>,
    /// The address staged by `transfer_admin`.
    pub pending_admin: Option<u64>,
    /// Circuit-breaker flag.
    pub paused: bool,
    /// Number of invoices created; invoice IDs run from `1` to this count.
    pub invoice_count: u64,
    /// Seconds added to an invoice's expiry when a payment is checked.
    pub grace_window: u64,
    /// Stored invoices by ID.
    pub invoices: HashMap<u64, Invoice>,
    /// Each merchant's invoice IDs, in creation order.
    pub merchant_invoices: HashMap<u64, Vec<u64>>,
    /// Each merchant's used non-zero nonces.
    pub used_nonces: HashMap<u64, Vec<u64>>,
    /// Each invoice's audit log of status transitions.
    pub history: HashMap<u64, Vec<StatusTransition>>,
    /// IDs of invoices that are still `Pending`.
    pub pending_ids: Vec<u64>,
    /// Fee breakdown recorded by `process_refund`.
    pub refund_breakdowns: HashMap<u64, NetRefund>,
}

/// The mathematical content of [`InvoiceContract`].
#[verifier::ext_equal]
pub struct InvoiceContractView {
    pub admin: Option<u64>,
    pub pending_admin: Option<u64>,
    pub paused: bool,
    pub invoice_count: u64,
    pub grace_window: u64,
    pub invoices: Map<u64, InvoiceView>,
    pub merchant_invoices: Map<u64, Seq<u64>>,
    pub used_nonces: Map<u64, Seq<u64>>,
    pub history: Map<u64, Seq<StatusTransition>>,
    pub pending: Seq<u64>,
    pub refunds: Map<u64, NetRefund>,
}

impl View for InvoiceContract {
    type V = InvoiceContractView;

    open spec fn view(&self) -> InvoiceContractView {
        InvoiceContractView {
            admin: self.admin,
            pending_admin: self.pending_admin,
            paused: self.paused,
            invoice_count: self.invoice_count,
            grace_window: self.grace_window,
            invoices: self.invoices@.map_values(|i: Invoice| i@),
            merchant_invoices: self.merchant_invoices@.map_values(|v: Vec<u64>| v@),
            used_nonces: self.used_nonces@.map_values(|v: Vec<u64>| v@),
            history: self.history@.map_values(|v: Vec<StatusTransition>| v@),
            pending: self.pending_ids@,
            refunds: self.refund_breakdowns@,
        }
    }
}

/// `s` with every occurrence of `x` removed, order kept.
pub open spec fn without(s: Seq<u64>, x: u64) -> Seq<u64>
    decreases s.len(),
{
    if s.len() == 0 {
        s
    } else if s.last() == x {
        without(s.drop_last(), x)
    } else {
        without(s.drop_last(), x).push(s.last())
    }
}

/// The moment from which a payment is refused: the expiry plus the grace
/// window, taken as an integer so that a sum beyond `u64::MAX` is a deadline
/// no timestamp reaches.
pub open spec fn payment_deadline(expires_at: u64, grace: u64) -> int {
    expires_at + grace
}

/// The invoice a successful creation stores.
pub open spec fn new_invoice(
    id: u64,
    merchant: u64,
    amount: i128,
    gross: i128,
    expires_at: u64,
    metadata_hash: Option<Seq<u8>>,
    payment_link_hash: Option<Seq<u8>>,
    nonce: u64,
    token: MaybeAddress,
) -> InvoiceView {
    InvoiceView {
        id,
        merchant,
        amount_usdc: amount,
        gross_usdc: gross,
        status: InvoiceStatus::Pending,
        expires_at,
        paid_at: None,
        payer: None,
        metadata_hash,
        payment_link_hash,
        merchant_nonce: nonce,
        token_address: token,
    }
}

/// The content of a batch of invoice parameters.
pub open spec fn params_view(ps: Seq<BatchInvoiceParams>) -> Seq<BatchInvoiceParamsView> {
    ps.map_values(|p: BatchInvoiceParams| p@)
}

/// Whether an element before position `i` carries nonce `n`. `n` among `ps[0..i]`.
pub open spec fn nonce_earlier(ps: Seq<BatchInvoiceParamsView>, i: int, n: u64) -> bool {
    exists|j: int| 0 <= j < i && (#[trigger] ps[j]).merchant_nonce == n
}

impl InvoiceContractView {
    pub open spec fn is_admin(self, a: u64) -> bool {
        self.admin == Some(a)
    }

    /// Whether `merchant` already used the non-zero nonce `n`.
    pub open spec fn nonce_used(self, merchant: u64, n: u64) -> bool {
        self.used_nonces.contains_key(merchant) && self.used_nonces[merchant].contains(n)
    }

    /// `merchant`'s invoice IDs in creation order.
    pub open spec fn merchant_ids(self, merchant: u64) -> Seq<u64> {
        if self.merchant_invoices.contains_key(merchant) {
            self.merchant_invoices[merchant]
        } else {
            Seq::empty()
        }
    }

    /// `merchant`'s used nonces.
    pub open spec fn nonces_of(self, merchant: u64) -> Seq<u64> {
        if self.used_nonces.contains_key(merchant) {
            self.used_nonces[merchant]
        } else {
            Seq::empty()
        }
    }

    /// The audit log of invoice `id`.
    pub open spec fn history_of(self, id: u64) -> Seq<StatusTransition> {
        if self.history.contains_key(id) {
            self.history[id]
        } else {
            Seq::empty()
        }
    }

    /// The audit log with one more transition of invoice `id`.
    pub open spec fn logged(
        self,
        id: u64,
        from: InvoiceStatus,
        to: InvoiceStatus,
        now: u64,
    ) -> Map<u64, Seq<StatusTransition>> {
        self.history.insert(
            id,
            self.history_of(id).push(StatusTransition { from, to, timestamp: now }),
        )
    }

    /// The state after invoice `id` moves from `from` to `to` at `now`.
    pub open spec fn transition(
        self,
        id: u64,
        from: InvoiceStatus,
        to: InvoiceStatus,
        now: u64,
    ) -> InvoiceContractView {
        InvoiceContractView {
            invoices: self.invoices.insert(id, InvoiceView { status: to, ..self.invoices[id] }),
            history: self.logged(id, from, to, now),
            ..self
        }
    }

    /// The state after storing a new invoice under the next ID.
    pub open spec fn add_invoice(
        self,
        merchant: u64,
        amount: i128,
        gross: i128,
        expires_at: u64,
        metadata_hash: Option<Seq<u8>>,
        payment_link_hash: Option<Seq<u8>>,
        nonce: u64,
        token: MaybeAddress,
    ) -> InvoiceContractView {
        let id = (self.invoice_count + 1) as u64;
        InvoiceContractView {
            invoices: self.invoices.insert(
                id,
                new_invoice(
                    id,
                    merchant,
                    amount,
                    gross,
                    expires_at,
                    metadata_hash,
                    payment_link_hash,
                    nonce,
                    token,
                ),
            ),
            invoice_count: id,
            used_nonces: if nonce != 0 {
                self.used_nonces.insert(merchant, self.nonces_of(merchant).push(nonce))
            } else {
                self.used_nonces
            },
            merchant_invoices: self.merchant_invoices.insert(
                merchant,
                self.merchant_ids(merchant).push(id),
            ),
            pending: self.pending.push(id),
            ..self
        }
    }

    /// `transfer_admin`: the admin nominates a successor; a later nomination
    /// supersedes an earlier one.
    pub open spec fn transfer_admin(self, admin: u64, new_admin: u64) -> Result<
        InvoiceContractView,
        InvoiceError,
    > {
        if !self.is_admin(admin) {
            Err(InvoiceError::Unauthorized)
        } else {
            Ok(InvoiceContractView { pending_admin: Some(new_admin), ..self })
        }
    }

    /// `accept_admin`: the nominee takes over and the nomination is cleared.
    pub open spec fn accept_admin(self, new_admin: u64) -> Result<InvoiceContractView, InvoiceError> {
        if self.pending_admin is None {
            Err(InvoiceError::NoPendingAdmin)
        } else if self.pending_admin != Some(new_admin) {
            Err(InvoiceError::Unauthorized)
        } else {
            Ok(InvoiceContractView { admin: Some(new_admin), pending_admin: None, ..self })
        }
    }

    /// `create_invoice`: the new state and the new invoice's ID.
    pub open spec fn create_invoice(
        self,
        merchant: u64,
        amount: i128,
        gross: i128,
        expires_in_seconds: u64,
        metadata_hash: Option<Seq<u8>>,
        payment_link_hash: Option<Seq<u8>>,
        nonce: u64,
        token: MaybeAddress,
        now: u64,
    ) -> Result<(InvoiceContractView, u64), InvoiceError> {
        if self.paused {
            Err(InvoiceError::ContractPaused)
        } else if amount_error(amount, gross) is Some {
            Err(amount_error(amount, gross).unwrap())
        } else if !hash_len_ok(metadata_hash) || !hash_len_ok(payment_link_hash) {
            Err(InvoiceError::HashTooLong)
        } else if !payment_link_ok(payment_link_hash) {
            Err(InvoiceError::InvalidPaymentLinkHash)
        } else if duration_error(expires_in_seconds) is Some {
            Err(duration_error(expires_in_seconds).unwrap())
        } else if nonce != 0 && self.nonce_used(merchant, nonce) {
            Err(InvoiceError::DuplicateNonce)
        } else if self.invoice_count == u64::MAX {
            Err(InvoiceError::InvoiceCountOverflow)
        } else if now + expires_in_seconds > u64::MAX {
            Err(InvoiceError::ExpiryOverflow)
        } else {
            Ok(
                (
                    self.add_invoice(
                        merchant,
                        amount,
                        gross,
                        (now + expires_in_seconds) as u64,
                        metadata_hash,
                        payment_link_hash,
                        nonce,
                        token,
                    ),
                    (self.invoice_count + 1) as u64,
                ),
            )
        }
    }

    /// The first rule element `i` of a batch breaks, given the earlier ones.
    pub open spec fn batch_param_error(
        self,
        merchant: u64,
        ps: Seq<BatchInvoiceParamsView>,
        i: int,
    ) -> Option<InvoiceError> {
        let p = ps[i];
        if amount_error(p.amount_usdc, p.gross_usdc) is Some {
            amount_error(p.amount_usdc, p.gross_usdc)
        } else if !payment_link_ok(p.payment_link_hash) {
            Some(InvoiceError::InvalidPaymentLinkHash)
        } else if duration_error(p.expires_in_seconds) is Some {
            duration_error(p.expires_in_seconds)
        } else if p.merchant_nonce != 0 && (self.nonce_used(merchant, p.merchant_nonce)
            || nonce_earlier(ps, i, p.merchant_nonce)) {
            Some(InvoiceError::DuplicateNonce)
        } else {
            None
        }
    }

    /// The error of the first element of `ps[0..k]` that breaks a rule.
    pub open spec fn batch_error(self, merchant: u64, ps: Seq<BatchInvoiceParamsView>, k: int) -> Option<
        InvoiceError,
    >
        decreases k,
    {
        if k <= 0 {
            None
        } else if self.batch_error(merchant, ps, k - 1) is Some {
            self.batch_error(merchant, ps, k - 1)
        } else {
            self.batch_param_error(merchant, ps, k - 1)
        }
    }

    /// Stores the invoices of `ps`, in order.
    pub open spec fn add_all(self, merchant: u64, ps: Seq<BatchInvoiceParamsView>, now: u64) -> InvoiceContractView
        decreases ps.len(),
    {
        if ps.len() == 0 {
            self
        } else {
            let p = ps.last();
            self.add_all(merchant, ps.drop_last(), now).add_invoice(
                merchant,
                p.amount_usdc,
                p.gross_usdc,
                (now + p.expires_in_seconds) as u64,
                p.metadata_hash,
                p.payment_link_hash,
                p.merchant_nonce,
                p.token_address,
            )
        }
    }

    /// `batch_create_invoice`: the new state and the new IDs, in order.
    pub open spec fn batch_create_invoice(
        self,
        merchant: u64,
        ps: Seq<BatchInvoiceParamsView>,
        now: u64,
    ) -> Result<(InvoiceContractView, Seq<u64>), InvoiceError> {
        if self.paused {
            Err(InvoiceError::ContractPaused)
        } else if ps.len() > MAX_BATCH_SIZE {
            Err(InvoiceError::BatchTooLarge)
        } else if self.batch_error(merchant, ps, ps.len() as int) is Some {
            Err(self.batch_error(merchant, ps, ps.len() as int).unwrap())
        } else if exists|i: int| 0 <= i < ps.len() && now + (#[trigger] ps[i]).expires_in_seconds > u64::MAX {
            Err(InvoiceError::ExpiryOverflow)
        } else {
            Ok(
                (
                    self.add_all(merchant, ps, now),
                    Seq::new(ps.len(), |i: int| (self.invoice_count + 1 + i) as u64),
                ),
            )
        }
    }

    /// `mark_paid`.
    pub open spec fn mark_paid(
        self,
        admin: u64,
        id: u64,
        payer: u64,
        provided_metadata_hash: Option<Seq<u8>>,
        payment_token: MaybeAddress,
        now: u64,
    ) -> Result<InvoiceContractView, InvoiceError> {
        if !self.is_admin(admin) {
            Err(InvoiceError::Unauthorized)
        } else if self.paused {
            Err(InvoiceError::ContractPaused)
        } else if !self.invoices.contains_key(id) {
            Err(InvoiceError::NotFound)
        } else {
            let inv = self.invoices[id];
            if inv.status != InvoiceStatus::Pending {
                Err(InvoiceError::NotPending)
            } else if provided_metadata_hash is Some && provided_metadata_hash
                != inv.metadata_hash {
                Err(InvoiceError::MetadataMismatch)
            } else if inv.token_address is Some && payment_token != inv.token_address {
                Err(InvoiceError::TokenMismatch)
            } else if now >= payment_deadline(inv.expires_at, self.grace_window) {
                Err(InvoiceError::Expired)
            } else {
                Ok(
                    InvoiceContractView {
                        invoices: self.invoices.insert(
                            id,
                            InvoiceView {
                                status: InvoiceStatus::Paid,
                                paid_at: Some(now),
                                payer: Some(payer),
                                ..inv
                            },
                        ),
                        pending: without(self.pending, id),
                        history: self.logged(id, InvoiceStatus::Pending, InvoiceStatus::Paid, now),
                        ..self
                    },
                )
            }
        }
    }

    /// An admin transition of invoice `id` from `from` to `to`, refused with
    /// `wrong_status` when the invoice is in another status.
    pub open spec fn admin_transition(
        self,
        admin: u64,
        id: u64,
        from: InvoiceStatus,
        to: InvoiceStatus,
        wrong_status: InvoiceError,
        verify_payment: bool,
        now: u64,
    ) -> Result<InvoiceContractView, InvoiceError> {
        if !self.is_admin(admin) {
            Err(InvoiceError::Unauthorized)
        } else if self.paused {
            Err(InvoiceError::ContractPaused)
        } else if !self.invoices.contains_key(id) {
            Err(InvoiceError::NotFound)
        } else if self.invoices[id].status != from {
            Err(wrong_status)
        } else if verify_payment && !payment_state_consistent(self.invoices[id]) {
            Err(InvoiceError::PaymentStateInconsistent)
        } else {
            Ok(self.transition(id, from, to, now))
        }
    }

    /// `release_escrow`: Paid → Released.
    pub open spec fn release_escrow(self, admin: u64, id: u64, now: u64) -> Result<
        InvoiceContractView,
        InvoiceError,
    > {
        self.admin_transition(
            admin,
            id,
            InvoiceStatus::Paid,
            InvoiceStatus::Released,
            InvoiceError::NotPaid,
            false,
            now,
        )
    }

    /// `approve_refund`: RefundRequested → Refunded, no payout.
    pub open spec fn approve_refund(self, admin: u64, id: u64, now: u64) -> Result<
        InvoiceContractView,
        InvoiceError,
    > {
        self.admin_transition(
            admin,
            id,
            InvoiceStatus::RefundRequested,
            InvoiceStatus::Refunded,
            InvoiceError::NotRefundRequested,
            true,
            now,
        )
    }

    /// `reject_refund`: RefundRequested → Paid.
    pub open spec fn reject_refund(self, admin: u64, id: u64, now: u64) -> Result<
        InvoiceContractView,
        InvoiceError,
    > {
        self.admin_transition(
            admin,
            id,
            InvoiceStatus::RefundRequested,
            InvoiceStatus::Paid,
            InvoiceError::NotRefundRequested,
            true,
            now,
        )
    }

    /// `cancel_invoice`: the merchant or the admin cancels a pending invoice.
    pub open spec fn cancel_invoice(self, caller: u64, id: u64, now: u64) -> Result<
        InvoiceContractView,
        InvoiceError,
    > {
        if self.paused {
            Err(InvoiceError::ContractPaused)
        } else if !self.invoices.contains_key(id) {
            Err(InvoiceError::NotFound)
        } else if caller != self.invoices[id].merchant && !self.is_admin(caller) {
            Err(InvoiceError::Unauthorized)
        } else if self.invoices[id].status != InvoiceStatus::Pending {
            Err(InvoiceError::NotPending)
        } else {
            Ok(
                InvoiceContractView {
                    pending: without(self.pending, id),
                    ..self.transition(id, InvoiceStatus::Pending, InvoiceStatus::Cancelled, now)
                },
            )
        }
    }

    /// `amend_invoice`: the merchant changes a pending invoice's amounts and
    /// restarts its lifetime from `now`.
    pub open spec fn amend_invoice(
        self,
        merchant: u64,
        id: u64,
        amount: i128,
        gross: i128,
        expires_in_seconds: u64,
        now: u64,
    ) -> Result<InvoiceContractView, InvoiceError> {
        if self.paused {
            Err(InvoiceError::ContractPaused)
        } else if amount_error(amount, gross) is Some {
            Err(amount_error(amount, gross).unwrap())
        } else if duration_error(expires_in_seconds) is Some {
            Err(duration_error(expires_in_seconds).unwrap())
        } else if !self.invoices.contains_key(id) {
            Err(InvoiceError::NotFound)
        } else if self.invoices[id].merchant != merchant {
            Err(InvoiceError::Unauthorized)
        } else if self.invoices[id].status != InvoiceStatus::Pending {
            Err(InvoiceError::NotPending)
        } else if now + expires_in_seconds > u64::MAX {
            Err(InvoiceError::ExpiryOverflow)
        } else {
            Ok(
                InvoiceContractView {
                    invoices: self.invoices.insert(
                        id,
                        InvoiceView {
                            amount_usdc: amount,
                            gross_usdc: gross,
                            expires_at: (now + expires_in_seconds) as u64,
                            ..self.invoices[id]
                        },
                    ),
                    ..self
                },
            )
        }
    }

    /// `request_refund`: the recorded payer disputes a paid invoice.
    pub open spec fn request_refund(self, payer: u64, id: u64, now: u64) -> Result<
        InvoiceContractView,
        InvoiceError,
    > {
        if self.paused {
            Err(InvoiceError::ContractPaused)
        } else if !self.invoices.contains_key(id) {
            Err(InvoiceError::NotFound)
        } else if self.invoices[id].status != InvoiceStatus::Paid {
            Err(InvoiceError::NotPaid)
        } else if self.invoices[id].payer != Some(payer) {
            Err(InvoiceError::Unauthorized)
        } else {
            Ok(self.transition(id, InvoiceStatus::Paid, InvoiceStatus::RefundRequested, now))
        }
    }

    /// What `process_refund` pays out, and to whom: `(token, payer, breakdown)`.
    pub open spec fn refund_plan(self, admin: u64, id: u64, fee_bps: u32) -> Result<
        (u64, u64, NetRefund),
        InvoiceError,
    > {
        if !self.is_admin(admin) {
            Err(InvoiceError::Unauthorized)
        } else if self.paused {
            Err(InvoiceError::ContractPaused)
        } else if !self.invoices.contains_key(id) {
            Err(InvoiceError::NotFound)
        } else {
            let inv = self.invoices[id];
            if inv.status != InvoiceStatus::RefundRequested {
                Err(InvoiceError::NotRefundRequested)
            } else if !payment_state_consistent(inv) {
                Err(InvoiceError::PaymentStateInconsistent)
            } else if inv.token_address is None {
                Err(InvoiceError::RefundTokenNotSet)
            } else {
                match net_refund_spec(inv.amount_usdc, fee_bps) {
                    Err(e) => Err(e),
                    Ok(n) => Ok((inv.token_address.unwrap(), inv.payer.unwrap(), n)),
                }
            }
        }
    }

    /// `process_refund`, given whether the token transfer of the planned
    /// payout succeeded.
    pub open spec fn process_refund(
        self,
        admin: u64,
        id: u64,
        fee_bps: u32,
        transfer_ok: bool,
        now: u64,
    ) -> Result<(InvoiceContractView, NetRefund), InvoiceError> {
        match self.refund_plan(admin, id, fee_bps) {
            Err(e) => Err(e),
            Ok(plan) => if !transfer_ok {
                Err(InvoiceError::RefundTransferFailed)
            } else {
                Ok(
                    (
                        InvoiceContractView {
                            refunds: self.refunds.insert(id, plan.2),
                            ..self.transition(
                                id,
                                InvoiceStatus::RefundRequested,
                                InvoiceStatus::Refunded,
                                now,
                            )
                        },
                        plan.2,
                    ),
                )
            },
        }
    }

    /// Whether `batch_expire` expires invoice `id` at `now`.
    pub open spec fn expirable(self, id: u64, now: u64) -> bool {
        self.invoices.contains_key(id) && self.invoices[id].status == InvoiceStatus::Pending && now
            >= self.invoices[id].expires_at
    }

    /// Expires each expirable invoice of `ids` in turn; also returns the IDs
    /// expired, in order.
    pub open spec fn expire_all(self, ids: Seq<u64>, now: u64) -> (InvoiceContractView, Seq<u64>)
        decreases ids.len(),
    {
        if ids.len() == 0 {
            (self, Seq::empty())
        } else {
            let (v, done) = self.expire_all(ids.drop_last(), now);
            let id = ids.last();
            if v.expirable(id, now) {
                (
                    InvoiceContractView {
                        pending: without(v.pending, id),
                        ..v.transition(id, InvoiceStatus::Pending, InvoiceStatus::Expired, now)
                    },
                    done.push(id),
                )
            } else {
                (v, done)
            }
        }
    }

    /// `batch_expire`: the new state and the IDs expired.
    pub open spec fn batch_expire(self, admin: u64, ids: Seq<u64>, now: u64) -> Result<
        (InvoiceContractView, Seq<u64>),
        InvoiceError,
    > {
        if !self.is_admin(admin) {
            Err(InvoiceError::Unauthorized)
        } else if self.paused {
            Err(InvoiceError::ContractPaused)
        } else if ids.len() > MAX_BATCH_EXPIRE {
            Err(InvoiceError::BatchTooLarge)
        } else {
            Ok(self.expire_all(ids, now))
        }
    }

    /// The stored invoices with IDs in `from..to`, in ID order.
    pub open spec fn page(self, from: int, to: int) -> Seq<InvoiceView>
        decreases to - from,
    {
        if to <= from {
            Seq::empty()
        } else if self.invoices.contains_key((to - 1) as u64) {
            self.page(from, to - 1).push(self.invoices[(to - 1) as u64])
        } else {
            self.page(from, to - 1)
        }
    }
}

proof fn lemma_nonce_earlier_step(ps: Seq<BatchInvoiceParamsView>, k: int, n: u64)
    requires
        0 <= k < ps.len(),
    ensures
        nonce_earlier(ps, k + 1, n) == (nonce_earlier(ps, k, n) || ps[k].merchant_nonce == n),
{
    if nonce_earlier(ps, k + 1, n) {
        let j = choose|j: int| 0 <= j < k + 1 && (#[trigger] ps[j]).merchant_nonce == n;
        if j < k {
            assert(nonce_earlier(ps, k, n));
        }
    }
    if nonce_earlier(ps, k, n) {
        let j = choose|j: int| 0 <= j < k && (#[trigger] ps[j]).merchant_nonce == n;
        assert(nonce_earlier(ps, k + 1, n));
    }
    if ps[k].merchant_nonce == n {
        assert(nonce_earlier(ps, k + 1, n));
    }
}

/// Once an element of a batch breaks a rule, the batch's first error stays
/// that element's.
proof fn lemma_batch_error_stable(
    v: InvoiceContractView,
    merchant: u64,
    ps: Seq<BatchInvoiceParamsView>,
    k: int,
    m: int,
)
    requires
        0 <= k <= m,
        v.batch_error(merchant, ps, k) is Some,
    ensures
        v.batch_error(merchant, ps, m) == v.batch_error(merchant, ps, k),
    decreases m - k,
{
    if m > k {
        lemma_batch_error_stable(v, merchant, ps, k, m - 1);
    }
}

impl InvoiceContract {
    /// Storage of a contract that has not been initialized yet.
    pub fn new() -> (r: InvoiceContract)
        ensures
            r@ == (InvoiceContractView {
                admin: None,
                pending_admin: None,
                paused: false,
                invoice_count: 0,
                grace_window: 0,
                invoices: Map::empty(),
                merchant_invoices: Map::empty(),
                used_nonces: Map::empty(),
                history: Map::empty(),
                pending: Seq::empty(),
                refunds: Map::empty(),
            }),
    {
        let r = InvoiceContract {
            admin: None,
            pending_admin: None,
            paused: false,
            invoice_count: 0,
            grace_window: 0,
            invoices: HashMap::new(),
            merchant_invoices: HashMap::new(),
            used_nonces: HashMap::new(),
            history: HashMap::new(),
            pending_ids: Vec::new(),
            refund_breakdowns: HashMap::new(),
        };
        assert(r@.invoices =~= Map::empty());
        assert(r@.merchant_invoices =~= Map::empty());
        assert(r@.used_nonces =~= Map::empty());
        assert(r@.history =~= Map::empty());
        r
    }

    fn require_admin(&self, admin: u64) -> (r: Result<(), InvoiceError>)
        requires
            self@.admin is Some,
        ensures
            r is Ok <==> self@.is_admin(admin),
            r is Err ==> r == Err::<(), InvoiceError>(InvoiceError::Unauthorized),
    {
        match self.admin {
            Some(stored) => if stored == admin {
                Ok(())
            } else {
                Err(InvoiceError::Unauthorized)
            },
            None => Err(InvoiceError::Unauthorized),
        }
    }

    fn nonce_used(&self, merchant: u64, nonce: u64) -> (r: bool)
        ensures
            r == self@.nonce_used(merchant, nonce),
    {
        match self.used_nonces.get(&merchant) {
            Some(v) => vec_contains(v, nonce),
            None => false,
        }
    }

    fn record_nonce(&mut self, merchant: u64, nonce: u64)
        ensures
            final(self)@ == (InvoiceContractView {
                used_nonces: old(self)@.used_nonces.insert(
                    merchant,
                    old(self)@.nonces_of(merchant).push(nonce),
                ),
                ..old(self)@
            }),
    {
        let mut v = match self.used_nonces.remove(&merchant) {
            Some(v) => v,
            None => Vec::new(),
        };
        v.push(nonce);
        self.used_nonces.insert(merchant, v);
        assert(self@.used_nonces =~= old(self)@.used_nonces.insert(
            merchant,
            old(self)@.nonces_of(merchant).push(nonce),
        ));
    }

    fn push_merchant_invoice(&mut self, merchant: u64, id: u64)
        ensures
            final(self)@ == (InvoiceContractView {
                merchant_invoices: old(self)@.merchant_invoices.insert(
                    merchant,
                    old(self)@.merchant_ids(merchant).push(id),
                ),
                ..old(self)@
            }),
    {
        let mut v = match self.merchant_invoices.remove(&merchant) {
            Some(v) => v,
            None => Vec::new(),
        };
        v.push(id);
        self.merchant_invoices.insert(merchant, v);
        assert(self@.merchant_invoices =~= old(self)@.merchant_invoices.insert(
            merchant,
            old(self)@.merchant_ids(merchant).push(id),
        ));
    }

    fn append_history(&mut self, id: u64, from: InvoiceStatus, to: InvoiceStatus, now: u64)
        ensures
            final(self)@ == (InvoiceContractView {
                history: old(self)@.logged(id, from, to, now),
                ..old(self)@
            }),
    {
        let mut v = match self.history.remove(&id) {
            Some(v) => v,
            None => Vec::new(),
        };
        v.push(StatusTransition { from, to, timestamp: now });
        self.history.insert(id, v);
        assert(self@.history =~= old(self)@.logged(id, from, to, now));
    }

    fn remove_pending(&mut self, id: u64)
        ensures
            final(self)@ == (InvoiceContractView {
                pending: without(old(self)@.pending, id),
                ..old(self)@
            }),
    {
        let mut out: Vec<u64> = Vec::new();
        let mut k: usize = 0;
        while k < self.pending_ids.len()
            invariant
                k <= self.pending_ids.len(),
                self@ == old(self)@,
                out@ == without(old(self)@.pending.take(k as int), id),
            decreases self.pending_ids.len() - k,
        {
            assert(old(self)@.pending.take(k + 1).drop_last() =~= old(self)@.pending.take(k as int));
            let x = self.pending_ids[k];
            if x != id {
                out.push(x);
            }
            k = k + 1;
        }
        assert(old(self)@.pending.take(old(self)@.pending.len() as int) =~= old(self)@.pending);
        self.pending_ids = out;
    }

    /// Moves invoice `id` to status `to`.
    fn set_status(&mut self, id: u64, to: InvoiceStatus)
        requires
            old(self)@.invoices.contains_key(id),
        ensures
            final(self)@ == (InvoiceContractView {
                invoices: old(self)@.invoices.insert(
                    id,
                    InvoiceView { status: to, ..old(self)@.invoices[id] },
                ),
                ..old(self)@
            }),
    {
        let mut inv = self.invoices.remove(&id).unwrap();
        inv.status = to;
        self.invoices.insert(id, inv);
        assert(self@.invoices =~= old(self)@.invoices.insert(
            id,
            InvoiceView { status: to, ..old(self)@.invoices[id] },
        ));
    }

    /// Moves invoice `id` from `from` to `to` at `now` and logs it.
    fn transition(&mut self, id: u64, from: InvoiceStatus, to: InvoiceStatus, now: u64)
        requires
            old(self)@.invoices.contains_key(id),
        ensures
            final(self)@ == old(self)@.transition(id, from, to, now),
    {
        self.set_status(id, to);
        self.append_history(id, from, to, now);
    }

    /// Stores a new pending invoice under the next ID and returns the ID.
    fn add_invoice(
        &mut self,
        merchant: u64,
        amount: i128,
        gross: i128,
        expires_at: u64,
        metadata_hash: MaybeBytes,
        payment_link_hash: MaybeBytes,
        nonce: u64,
        token: MaybeAddress,
    ) -> (id: u64)
        requires
            old(self)@.invoice_count < u64::MAX,
        ensures
            id == old(self)@.invoice_count + 1,
            final(self)@ == old(self)@.add_invoice(
                merchant,
                amount,
                gross,
                expires_at,
                bytes_view(metadata_hash),
                bytes_view(payment_link_hash),
                nonce,
                token,
            ),
    {
        let id = self.invoice_count + 1;
        let invoice = Invoice {
            id,
            merchant,
            amount_usdc: amount,
            gross_usdc: gross,
            status: InvoiceStatus::Pending,
            expires_at,
            paid_at: None,
            payer: None,
            metadata_hash,
            payment_link_hash,
            merchant_nonce: nonce,
            token_address: token,
        };
        self.invoices.insert(id, invoice);
        assert(self@.invoices =~= old(self)@.invoices.insert(
            id,
            new_invoice(
                id,
                merchant,
                amount,
                gross,
                expires_at,
                bytes_view(metadata_hash),
                bytes_view(payment_link_hash),
                nonce,
                token,
            ),
        ));
        self.invoice_count = id;
        if nonce != 0 {
            self.record_nonce(merchant, nonce);
        }
        self.push_merchant_invoice(merchant, id);
        self.pending_ids.push(id);
        id
    }

    /// Initializes the contract with an admin address.
    pub fn initialize(&mut self, admin: u64) -> (r: Result<(), InvoiceError>)
        ensures
            old(self)@.admin is Some ==> r == Err::<(), InvoiceError>(
                InvoiceError::AlreadyInitialized,
            ) && final(self)@ == old(self)@,
            old(self)@.admin is None ==> r is Ok && final(self)@ == (InvoiceContractView {
                admin: Some(admin),
                invoice_count: 0,
                paused: false,
                ..old(self)@
            }),
    {
        if self.admin.is_some() {
            return Err(InvoiceError::AlreadyInitialized);
        }
        self.admin = Some(admin);
        self.invoice_count = 0;
        self.paused = false;
        Ok(())
    }

    /// Sets the grace window added to an invoice's expiry when checking a payment.
    pub fn set_grace_window(&mut self, admin: u64, seconds: u64) -> (r: Result<(), InvoiceError>)
        requires
            old(self)@.admin is Some,
        ensures
            old(self)@.is_admin(admin) ==> r is Ok && final(self)@ == (InvoiceContractView {
                grace_window: seconds,
                ..old(self)@
            }),
            !old(self)@.is_admin(admin) ==> r == Err::<(), InvoiceError>(
                InvoiceError::Unauthorized,
            ) && final(self)@ == old(self)@,
    {
        self.require_admin(admin)?;
        self.grace_window = seconds;
        Ok(())
    }

    /// The grace window in seconds (`0` unless set).
    pub fn get_grace_window(&self) -> (r: u64)
        ensures
            r == self@.grace_window,
    {
        self.grace_window
    }

    /// Nominates `new_admin`; a later nomination supersedes an earlier one.
    pub fn transfer_admin(&mut self, admin: u64, new_admin: u64) -> (r: Result<(), InvoiceError>)
        requires
            old(self)@.admin is Some,
        ensures
            match old(self)@.transfer_admin(admin, new_admin) {
                Ok(v) => r is Ok && final(self)@ == v,
                Err(e) => r == Err::<(), InvoiceError>(e) && final(self)@ == old(self)@,
            },
    {
        self.require_admin(admin)?;
        self.pending_admin = Some(new_admin);
        Ok(())
    }

    /// Completes an admin transfer; must be called by the pending admin.
    pub fn accept_admin(&mut self, new_admin: u64) -> (r: Result<(), InvoiceError>)
        ensures
            match old(self)@.accept_admin(new_admin) {
                Ok(v) => r is Ok && final(self)@ == v,
                Err(e) => r == Err::<(), InvoiceError>(e) && final(self)@ == old(self)@,
            },
    {
        match self.pending_admin {
            None => {
                return Err(InvoiceError::NoPendingAdmin);
            },
            Some(p) => {
                if p != new_admin {
                    return Err(InvoiceError::Unauthorized);
                }
            },
        }
        self.admin = Some(new_admin);
        self.pending_admin = None;
        Ok(())
    }

    /// Sets the circuit-breaker flag.
    pub fn pause(&mut self, admin: u64) -> (r: Result<(), InvoiceError>)
        requires
            old(self)@.admin is Some,
        ensures
            old(self)@.is_admin(admin) ==> r is Ok && final(self)@ == (InvoiceContractView {
                paused: true,
                ..old(self)@
            }),
            !old(self)@.is_admin(admin) ==> r == Err::<(), InvoiceError>(
                InvoiceError::Unauthorized,
            ) && final(self)@ == old(self)@,
    {
        self.require_admin(admin)?;
        self.paused = true;
        Ok(())
    }

    /// Clears the circuit-breaker flag.
    pub fn unpause(&mut self, admin: u64) -> (r: Result<(), InvoiceError>)
        requires
            old(self)@.admin is Some,
        ensures
            old(self)@.is_admin(admin) ==> r is Ok && final(self)@ == (InvoiceContractView {
                paused: false,
                ..old(self)@
            }),
            !old(self)@.is_admin(admin) ==> r == Err::<(), InvoiceError>(
                InvoiceError::Unauthorized,
            ) && final(self)@ == old(self)@,
    {
        self.require_admin(admin)?;
        self.paused = false;
        Ok(())
    }

    /// Creates a pending invoice that expires `expires_in_seconds` after
    /// `now` and returns its ID. A non-zero `merchant_nonce` may be used only
    /// once per merchant.
    pub fn create_invoice(
        &mut self,
        merchant: u64,
        amount_usdc: i128,
        gross_usdc: i128,
        expires_in_seconds: u64,
        metadata_hash: MaybeBytes,
        payment_link_hash: MaybeBytes,
        merchant_nonce: u64,
        token_address: MaybeAddress,
        now: u64,
    ) -> (r: Result<u64, InvoiceError>)
        ensures
            match old(self)@.create_invoice(
                merchant,
                amount_usdc,
                gross_usdc,
                expires_in_seconds,
                bytes_view(metadata_hash),
                bytes_view(payment_link_hash),
                merchant_nonce,
                token_address,
                now,
            ) {
                Ok((v, id)) => r == Ok::<u64, InvoiceError>(id) && final(self)@ == v,
                Err(e) => r == Err::<u64, InvoiceError>(e) && final(self)@ == old(self)@,
            },
    {
        if self.paused {
            return Err(InvoiceError::ContractPaused);
        }
        check_amounts(amount_usdc, gross_usdc)?;
        check_hash_len(&metadata_hash)?;
        check_hash_len(&payment_link_hash)?;
        check_payment_link(&payment_link_hash)?;
        check_duration(expires_in_seconds)?;
        if merchant_nonce != 0 && self.nonce_used(merchant, merchant_nonce) {
            return Err(InvoiceError::DuplicateNonce);
        }
        if self.invoice_count == u64::MAX {
            return Err(InvoiceError::InvoiceCountOverflow);
        }
        let expires_at = match now.checked_add(expires_in_seconds) {
            Some(t) => t,
            None => {
                return Err(InvoiceError::ExpiryOverflow);
            },
        };
        let id = self.add_invoice(
            merchant,
            amount_usdc,
            gross_usdc,
            expires_at,
            metadata_hash,
            payment_link_hash,
            merchant_nonce,
            token_address,
        );
        Ok(id)
    }

    /// Records `payer`'s payment of pending invoice `id` at `now`. Admin-only.
    /// A given metadata hash must match the invoice's, a payment token must
    /// match the invoice's token when it names one, and the payment must come
    /// strictly before the expiry plus the grace window.
    pub fn mark_paid(
        &mut self,
        admin: u64,
        id: u64,
        payer: u64,
        provided_metadata_hash: MaybeBytes,
        payment_token: MaybeAddress,
        now: u64,
    ) -> (r: Result<(), InvoiceError>)
        requires
            old(self)@.admin is Some,
        ensures
            match old(self)@.mark_paid(
                admin,
                id,
                payer,
                bytes_view(provided_metadata_hash),
                payment_token,
                now,
            ) {
                Ok(v) => r is Ok && final(self)@ == v,
                Err(e) => r == Err::<(), InvoiceError>(e) && final(self)@ == old(self)@,
            },
    {
        self.require_admin(admin)?;
        if self.paused {
            return Err(InvoiceError::ContractPaused);
        }
        let (status, mismatch, token, expires_at) = match self.invoices.get(&id) {
            None => {
                return Err(InvoiceError::NotFound);
            },
            Some(inv) => {
                let mismatch = match (&provided_metadata_hash, &inv.metadata_hash) {
                    (None, _) => false,
                    (Some(_), None) => true,
                    (Some(p), Some(m)) => !bytes_equal(p, m),
                };
                (inv.status, mismatch, inv.token_address, inv.expires_at)
            },
        };
        if status != InvoiceStatus::Pending {
            return Err(InvoiceError::NotPending);
        }
        if mismatch {
            return Err(InvoiceError::MetadataMismatch);
        }
        match token {
            Some(expected) => {
                match payment_token {
                    Some(t) => if t != expected {
                        return Err(InvoiceError::TokenMismatch);
                    },
                    None => {
                        return Err(InvoiceError::TokenMismatch);
                    },
                }
            },
            None => {},
        }
        let past_deadline = match expires_at.checked_add(self.grace_window) {
            Some(deadline) => now >= deadline,
            None => false,
        };
        if past_deadline {
            return Err(InvoiceError::Expired);
        }
        let mut inv = self.invoices.remove(&id).unwrap();
        inv.status = InvoiceStatus::Paid;
        inv.paid_at = Some(now);
        inv.payer = Some(payer);
        self.invoices.insert(id, inv);
        assert(self@.invoices =~= old(self)@.invoices.insert(
            id,
            InvoiceView {
                status: InvoiceStatus::Paid,
                paid_at: Some(now),
                payer: Some(payer),
                ..old(self)@.invoices[id]
            },
        ));
        self.remove_pending(id);
        self.append_history(id, InvoiceStatus::Pending, InvoiceStatus::Paid, now);
        Ok(())
    }

    /// The shared body of the admin-only transitions.
    fn admin_transition(
        &mut self,
        admin: u64,
        id: u64,
        from: InvoiceStatus,
        to: InvoiceStatus,
        wrong_status: InvoiceError,
        verify_payment: bool,
        now: u64,
    ) -> (r: Result<(), InvoiceError>)
        requires
            old(self)@.admin is Some,
        ensures
            match old(self)@.admin_transition(admin, id, from, to, wrong_status, verify_payment, now) {
                Ok(v) => r is Ok && final(self)@ == v,
                Err(e) => r == Err::<(), InvoiceError>(e) && final(self)@ == old(self)@,
            },
    {
        self.require_admin(admin)?;
        if self.paused {
            return Err(InvoiceError::ContractPaused);
        }
        match self.invoices.get(&id) {
            None => {
                return Err(InvoiceError::NotFound);
            },
            Some(inv) => {
                if inv.status != from {
                    return Err(wrong_status);
                }
                if verify_payment {
                    verify_payment_state(inv)?;
                }
            },
        }
        self.transition(id, from, to, now);
        Ok(())
    }

    /// Releases the escrow of a paid invoice: Paid → Released. Admin-only.
    pub fn release_escrow(&mut self, admin: u64, id: u64, now: u64) -> (r: Result<(), InvoiceError>)
        requires
            old(self)@.admin is Some,
        ensures
            match old(self)@.release_escrow(admin, id, now) {
                Ok(v) => r is Ok && final(self)@ == v,
                Err(e) => r == Err::<(), InvoiceError>(e) && final(self)@ == old(self)@,
            },
    {
        self.admin_transition(
            admin,
            id,
            InvoiceStatus::Paid,
            InvoiceStatus::Released,
            InvoiceError::NotPaid,
            false,
            now,
        )
    }

    /// Approves a refund request without a payout: RefundRequested →
    /// Refunded. Admin-only; the payment record is verified first.
    pub fn approve_refund(&mut self, admin: u64, id: u64, now: u64) -> (r: Result<(), InvoiceError>)
        requires
            old(self)@.admin is Some,
        ensures
            match old(self)@.approve_refund(admin, id, now) {
                Ok(v) => r is Ok && final(self)@ == v,
                Err(e) => r == Err::<(), InvoiceError>(e) && final(self)@ == old(self)@,
            },
    {
        self.admin_transition(
            admin,
            id,
            InvoiceStatus::RefundRequested,
            InvoiceStatus::Refunded,
            InvoiceError::NotRefundRequested,
            true,
            now,
        )
    }

    /// Rejects a refund request: RefundRequested → Paid. Admin-only; the
    /// payment record is verified first.
    pub fn reject_refund(&mut self, admin: u64, id: u64, now: u64) -> (r: Result<(), InvoiceError>)
        requires
            old(self)@.admin is Some,
        ensures
            match old(self)@.reject_refund(admin, id, now) {
                Ok(v) => r is Ok && final(self)@ == v,
                Err(e) => r == Err::<(), InvoiceError>(e) && final(self)@ == old(self)@,
            },
    {
        self.admin_transition(
            admin,
            id,
            InvoiceStatus::RefundRequested,
            InvoiceStatus::Paid,
            InvoiceError::NotRefundRequested,
            true,
            now,
        )
    }

    /// The stored invoice `id`.
    pub fn get_invoice(&self, id: u64) -> (r: Result<Invoice, InvoiceError>)
        ensures
            self@.invoices.contains_key(id) ==> r is Ok && r->Ok_0@ == self@.invoices[id],
            !self@.invoices.contains_key(id) ==> r == Err::<Invoice, InvoiceError>(
                InvoiceError::NotFound,
            ),
    {
        match self.invoices.get(&id) {
            Some(inv) => Ok(inv.copy()),
            None => Err(InvoiceError::NotFound),
        }
    }

    /// The status of invoice `id`.
    pub fn get_invoice_status(&self, id: u64) -> (r: Result<InvoiceStatus, InvoiceError>)
        ensures
            r == if self@.invoices.contains_key(id) {
                Ok::<InvoiceStatus, InvoiceError>(self@.invoices[id].status)
            } else {
                Err(InvoiceError::NotFound)
            },
    {
        match self.invoices.get(&id) {
            Some(inv) => Ok(inv.status),
            None => Err(InvoiceError::NotFound),
        }
    }

    /// The status result of each ID, in input order.
    pub fn batch_get_invoice_status(&self, ids: &Vec<u64>) -> (r: Vec<
        Result<InvoiceStatus, InvoiceError>,
    >)
        ensures
            r@.len() == ids@.len(),
            forall|i: int|
                0 <= i < ids@.len() ==> r@[i] == if self@.invoices.contains_key(#[trigger] ids@[i]) {
                    Ok::<InvoiceStatus, InvoiceError>(self@.invoices[ids@[i]].status)
                } else {
                    Err(InvoiceError::NotFound)
                },
    {
        let mut out: Vec<Result<InvoiceStatus, InvoiceError>> = Vec::new();
        let mut k: usize = 0;
        while k < ids.len()
            invariant
                k <= ids.len(),
                out@.len() == k,
                forall|i: int|
                    0 <= i < k ==> out@[i] == if self@.invoices.contains_key(#[trigger] ids@[i]) {
                        Ok::<InvoiceStatus, InvoiceError>(self@.invoices[ids@[i]].status)
                    } else {
                        Err(InvoiceError::NotFound)
                    },
            decreases ids.len() - k,
        {
            out.push(self.get_invoice_status(ids[k]));
            k = k + 1;
        }
        out
    }

    /// Up to `limit` IDs starting at `start_id`, capped at the invoice count:
    /// the stored invoices among them, in ID order.
    pub fn get_invoices_page(&self, start_id: u64, limit: u64) -> (r: Vec<Invoice>)
        requires
            self@.invoice_count < u64::MAX,
        ensures
            ({
                let end = if start_id + limit < self@.invoice_count + 1 {
                    start_id + limit
                } else {
                    self@.invoice_count + 1
                };
                &&& r@.len() == self@.page(start_id as int, end).len()
                &&& forall|i: int|
                    0 <= i < r@.len() ==> (#[trigger] r@[i])@ == self@.page(start_id as int, end)[i]
            }),
    {
        let cap = self.invoice_count + 1;
        let end_id = if limit < cap && start_id < cap - limit {
            start_id + limit
        } else {
            cap
        };
        let mut out: Vec<Invoice> = Vec::new();
        if end_id <= start_id {
            assert(self@.page(start_id as int, end_id as int) =~= Seq::<InvoiceView>::empty());
            return out;
        }
        let mut current = start_id;
        while current < end_id
            invariant
                start_id <= current <= end_id,
                out@.len() == self@.page(start_id as int, current as int).len(),
                forall|i: int|
                    0 <= i < out@.len() ==> (#[trigger] out@[i])@ == self@.page(
                        start_id as int,
                        current as int,
                    )[i],
            decreases end_id - current,
        {
            let ghost before = self@.page(start_id as int, current as int);
            match self.invoices.get(&current) {
                Some(inv) => {
                    out.push(inv.copy());
                },
                None => {},
            }
            current = current + 1;
            assert(self@.page(start_id as int, current as int) == if self@.invoices.contains_key(
                (current - 1) as u64,
            ) {
                before.push(self@.invoices[(current - 1) as u64])
            } else {
                before
            });
        }
        out
    }

    /// The number of invoices created.
    pub fn get_invoice_count(&self) -> (r: u64)
        ensures
            r == self@.invoice_count,
    {
        self.invoice_count
    }

    /// The IDs of the invoices still pending.
    pub fn get_pending_ids(&self) -> (r: Vec<u64>)
        ensures
            r@ == self@.pending,
    {
        crate::seq_util::copy_u64s(&self.pending_ids)
    }

    /// Cancels a pending invoice; the merchant or the admin may call it.
    pub fn cancel_invoice(&mut self, caller: u64, id: u64, now: u64) -> (r: Result<(), InvoiceError>)
        requires
            old(self)@.admin is Some,
        ensures
            match old(self)@.cancel_invoice(caller, id, now) {
                Ok(v) => r is Ok && final(self)@ == v,
                Err(e) => r == Err::<(), InvoiceError>(e) && final(self)@ == old(self)@,
            },
    {
        if self.paused {
            return Err(InvoiceError::ContractPaused);
        }
        let (merchant, status) = match self.invoices.get(&id) {
            None => {
                return Err(InvoiceError::NotFound);
            },
            Some(inv) => (inv.merchant, inv.status),
        };
        let is_admin = match self.admin {
            Some(a) => a == caller,
            None => false,
        };
        if caller != merchant && !is_admin {
            return Err(InvoiceError::Unauthorized);
        }
        if status != InvoiceStatus::Pending {
            return Err(InvoiceError::NotPending);
        }
        self.transition(id, InvoiceStatus::Pending, InvoiceStatus::Cancelled, now);
        self.remove_pending(id);
        Ok(())
    }

    /// Amends a pending invoice's amounts and restarts its lifetime from
    /// `now`. Only the invoice's merchant may call it.
    pub fn amend_invoice(
        &mut self,
        merchant: u64,
        id: u64,
        new_amount_usdc: i128,
        new_gross_usdc: i128,
        new_expires_in_seconds: u64,
        now: u64,
    ) -> (r: Result<(), InvoiceError>)
        ensures
            match old(self)@.amend_invoice(
                merchant,
                id,
                new_amount_usdc,
                new_gross_usdc,
                new_expires_in_seconds,
                now,
            ) {
                Ok(v) => r is Ok && final(self)@ == v,
                Err(e) => r == Err::<(), InvoiceError>(e) && final(self)@ == old(self)@,
            },
    {
        if self.paused {
            return Err(InvoiceError::ContractPaused);
        }
        check_amounts(new_amount_usdc, new_gross_usdc)?;
        check_duration(new_expires_in_seconds)?;
        match self.invoices.get(&id) {
            None => {
                return Err(InvoiceError::NotFound);
            },
            Some(inv) => {
                if inv.merchant != merchant {
                    return Err(InvoiceError::Unauthorized);
                }
                if inv.status != InvoiceStatus::Pending {
                    return Err(InvoiceError::NotPending);
                }
            },
        }
        let expires_at = match now.checked_add(new_expires_in_seconds) {
            Some(t) => t,
            None => {
                return Err(InvoiceError::ExpiryOverflow);
            },
        };
        let mut inv = self.invoices.remove(&id).unwrap();
        inv.amount_usdc = new_amount_usdc;
        inv.gross_usdc = new_gross_usdc;
        inv.expires_at = expires_at;
        self.invoices.insert(id, inv);
        assert(self@.invoices =~= old(self)@.invoices.insert(
            id,
            InvoiceView {
                amount_usdc: new_amount_usdc,
                gross_usdc: new_gross_usdc,
                expires_at: expires_at,
                ..old(self)@.invoices[id]
            },
        ));
        Ok(())
    }

    /// The recorded payer disputes a paid invoice: Paid → RefundRequested.
    pub fn request_refund(&mut self, payer: u64, id: u64, now: u64) -> (r: Result<(), InvoiceError>)
        ensures
            match old(self)@.request_refund(payer, id, now) {
                Ok(v) => r is Ok && final(self)@ == v,
                Err(e) => r == Err::<(), InvoiceError>(e) && final(self)@ == old(self)@,
            },
    {
        if self.paused {
            return Err(InvoiceError::ContractPaused);
        }
        match self.invoices.get(&id) {
            None => {
                return Err(InvoiceError::NotFound);
            },
            Some(inv) => {
                if inv.status != InvoiceStatus::Paid {
                    return Err(InvoiceError::NotPaid);
                }
                match inv.payer {
                    Some(p) => if p != payer {
                        return Err(InvoiceError::Unauthorized);
                    },
                    None => {
                        return Err(InvoiceError::Unauthorized);
                    },
                }
            },
        }
        self.transition(id, InvoiceStatus::Paid, InvoiceStatus::RefundRequested, now);
        Ok(())
    }

    /// What `process_refund` will pay out for invoice `id` under `fee_bps`:
    /// `(token, payer, breakdown)`, or the error that refuses the refund
    /// before any transfer.
    pub fn refund_plan(&self, admin: u64, id: u64, fee_bps: u32) -> (r: Result<
        (u64, u64, NetRefund),
        InvoiceError,
    >)
        requires
            self@.admin is Some,
        ensures
            r == self@.refund_plan(admin, id, fee_bps),
    {
        self.require_admin(admin)?;
        if self.paused {
            return Err(InvoiceError::ContractPaused);
        }
        match self.invoices.get(&id) {
            None => Err(InvoiceError::NotFound),
            Some(inv) => {
                if inv.status != InvoiceStatus::RefundRequested {
                    return Err(InvoiceError::NotRefundRequested);
                }
                verify_payment_state(inv)?;
                let payer = match inv.payer {
                    Some(p) => p,
                    None => {
                        return Err(InvoiceError::PaymentStateInconsistent);
                    },
                };
                let token = match inv.token_address {
                    Some(t) => t,
                    None => {
                        return Err(InvoiceError::RefundTokenNotSet);
                    },
                };
                let refund = calculate_net_refund(inv.amount_usdc, fee_bps)?;
                Ok((token, payer, refund))
            },
        }
    }

    /// Completes a refund once the planned payout has been attempted:
    /// `transfer_ok` is whether the token transfer of `refund_plan`'s
    /// `net_amount` to its payer succeeded. On success the invoice becomes
    /// `Refunded` and the breakdown is recorded; a failed transfer leaves
    /// the state unchanged with `RefundTransferFailed`.
    pub fn process_refund(
        &mut self,
        admin: u64,
        id: u64,
        fee_bps: u32,
        transfer_ok: bool,
        now: u64,
    ) -> (r: Result<NetRefund, InvoiceError>)
        requires
            old(self)@.admin is Some,
        ensures
            match old(self)@.process_refund(admin, id, fee_bps, transfer_ok, now) {
                Ok((v, n)) => r == Ok::<NetRefund, InvoiceError>(n) && final(self)@ == v,
                Err(e) => r == Err::<NetRefund, InvoiceError>(e) && final(self)@ == old(self)@,
            },
    {
        let plan = self.refund_plan(admin, id, fee_bps)?;
        if !transfer_ok {
            return Err(InvoiceError::RefundTransferFailed);
        }
        let refund = plan.2;
        self.transition(id, InvoiceStatus::RefundRequested, InvoiceStatus::Refunded, now);
        self.refund_breakdowns.insert(id, refund);
        Ok(refund)
    }

    /// The refund breakdown `process_refund` would apply to `gross_amount`
    /// under `fee_bps`.
    pub fn calculate_net_refund(gross_amount: i128, fee_bps: u32) -> (r: Result<
        NetRefund,
        InvoiceError,
    >)
        ensures
            r == net_refund_spec(gross_amount, fee_bps),
    {
        calculate_net_refund(gross_amount, fee_bps)
    }

    /// The breakdown recorded by `process_refund` for invoice `id`.
    pub fn get_refund_breakdown(&self, id: u64) -> (r: Result<NetRefund, InvoiceError>)
        ensures
            r == if self@.refunds.contains_key(id) {
                Ok::<NetRefund, InvoiceError>(self@.refunds[id])
            } else {
                Err(InvoiceError::NotFound)
            },
    {
        match self.refund_breakdowns.get(&id) {
            Some(n) => Ok(*n),
            None => Err(InvoiceError::NotFound),
        }
    }

    /// A page of `merchant`'s invoice IDs: skips `start`, returns up to `limit`.
    pub fn get_invoices_by_merchant(&self, merchant: u64, start: u32, limit: u32) -> (r: Vec<u64>)
        ensures
            ({
                let ids = self@.merchant_ids(merchant);
                let s = if start < ids.len() {
                    start as int
                } else {
                    ids.len() as int
                };
                let e = if s + limit < ids.len() {
                    s + limit
                } else {
                    ids.len() as int
                };
                r@ == ids.subrange(s, e)
            }),
    {
        let mut out: Vec<u64> = Vec::new();
        match self.merchant_invoices.get(&merchant) {
            None => {
                assert(out@ =~= self@.merchant_ids(merchant).subrange(0, 0));
                out
            },
            Some(ids) => {
                let total = ids.len();
                let s: usize = if (start as usize) < total {
                    start as usize
                } else {
                    total
                };
                let e: usize = if (limit as usize) < total - s {
                    s + limit as usize
                } else {
                    total
                };
                let mut i = s;
                while i < e
                    invariant
                        s <= i <= e <= total,
                        total == ids@.len(),
                        ids@ == self@.merchant_ids(merchant),
                        out@ == ids@.subrange(s as int, i as int),
                    decreases e - i,
                {
                    out.push(ids[i]);
                    i = i + 1;
                    assert(out@ =~= ids@.subrange(s as int, i as int));
                }
                out
            },
        }
    }
    /// Creates one pending invoice per element of `params`, all or none, and
    /// returns their IDs in order. Every element is validated before any is
    /// stored; a non-zero nonce may be used neither earlier in the batch nor
    /// before by the merchant.
    pub fn batch_create_invoice(
        &mut self,
        merchant: u64,
        params: &Vec<BatchInvoiceParams>,
        now: u64,
    ) -> (r: Result<Vec<u64>, InvoiceError>)
        requires
            old(self)@.invoice_count + params@.len() <= u64::MAX,
        ensures
            match old(self)@.batch_create_invoice(merchant, params_view(params@), now) {
                Ok((v, ids)) => r is Ok && r->Ok_0@ == ids && final(self)@ == v,
                Err(e) => r == Err::<Vec<u64>, InvoiceError>(e) && final(self)@ == old(self)@,
            },
    {
        let ghost ps = params_view(params@);
        if self.paused {
            return Err(InvoiceError::ContractPaused);
        }
        if params.len() > MAX_BATCH_SIZE as usize {
            return Err(InvoiceError::BatchTooLarge);
        }
        let mut batch_nonces: Vec<u64> = Vec::new();
        let mut k: usize = 0;
        while k < params.len()
            invariant
                k <= params.len(),
                ps == params_view(params@),
                self@ == old(self)@,
                !self@.paused,
                params@.len() <= MAX_BATCH_SIZE,
                self@.batch_error(merchant, ps, k as int) is None,
                forall|n: u64|
                    n != 0 ==> (batch_nonces@.contains(n) <==> nonce_earlier(ps, k as int, n)),
            decreases params.len() - k,
        {
            let p = &params[k];
            assert(ps[k as int] == p@);
            let ghost prev = batch_nonces@;
            let checked = match check_amounts(p.amount_usdc, p.gross_usdc) {
                Err(e) => Err(e),
                Ok(()) => match check_payment_link(&p.payment_link_hash) {
                    Err(e) => Err(e),
                    Ok(()) => check_duration(p.expires_in_seconds),
                },
            };
            match checked {
                Err(e) => {
                    proof {
                        assert(self@.batch_param_error(merchant, ps, k as int) == Some(e));
                        assert(self@.batch_error(merchant, ps, k + 1) == Some(e));
                        lemma_batch_error_stable(
                            self@,
                            merchant,
                            ps,
                            k + 1,
                            ps.len() as int,
                        );
                    }
                    return Err(e);
                },
                Ok(()) => {},
            }
            if p.merchant_nonce != 0 {
                if self.nonce_used(merchant, p.merchant_nonce) || vec_contains(
                    &batch_nonces,
                    p.merchant_nonce,
                ) {
                    proof {
                        assert(nonce_earlier(ps, k as int, p.merchant_nonce) ==> batch_nonces@.contains(p.merchant_nonce));
                        assert(self@.batch_param_error(merchant, ps, k as int) == Some(InvoiceError::DuplicateNonce));
                        assert(self@.batch_error(merchant, ps, k + 1) == Some(InvoiceError::DuplicateNonce));
                        lemma_batch_error_stable(
                            self@,
                            merchant,
                            ps,
                            k + 1,
                            ps.len() as int,
                        );
                    }
                    return Err(InvoiceError::DuplicateNonce);
                }
                batch_nonces.push(p.merchant_nonce);
            }
            proof {
                assert forall|n: u64| n != 0 implies (batch_nonces@.contains(n) <==> nonce_earlier(
                    ps,
                    k + 1,
                    n,
                )) by {
                    lemma_nonce_earlier_step(ps, k as int, n);
                    assert(batch_nonces@ == if p.merchant_nonce != 0 {
                        prev.push(p.merchant_nonce)
                    } else {
                        prev
                    });
                    assert(prev.contains(n) <==> nonce_earlier(ps, k as int, n));
                    if p.merchant_nonce != 0 {
                        if batch_nonces@.contains(n) {
                            let i = choose|i: int| 0 <= i < batch_nonces@.len() && batch_nonces@[i] == n;
                            if i < prev.len() {
                                assert(prev[i] == n);
                            }
                        }
                        if prev.contains(n) {
                            let i = choose|i: int| 0 <= i < prev.len() && prev[i] == n;
                            assert(batch_nonces@[i] == n);
                        }
                        if p.merchant_nonce == n {
                            assert(batch_nonces@[prev.len() as int] == n);
                        }
                    }
                }
                assert(self@.batch_error(merchant, ps, k + 1) is None);
            }
            k = k + 1;
        }
        let mut j: usize = 0;
        while j < params.len()
            invariant
                j <= params.len(),
                ps == params_view(params@),
                self@ == old(self)@,
                !self@.paused,
                params@.len() <= MAX_BATCH_SIZE,
                self@.batch_error(merchant, ps, ps.len() as int) is None,
                forall|i: int| 0 <= i < j ==> now + (#[trigger] ps[i]).expires_in_seconds <= u64::MAX,
            decreases params.len() - j,
        {
            assert(ps[j as int] == params@[j as int]@);
            if now.checked_add(params[j].expires_in_seconds).is_none() {
                assert(now + ps[j as int].expires_in_seconds > u64::MAX);
                return Err(InvoiceError::ExpiryOverflow);
            }
            j = j + 1;
        }
        let ghost v0 = self@;
        let mut ids: Vec<u64> = Vec::new();
        let mut k: usize = 0;
        while k < params.len()
            invariant
                k <= params.len(),
                ps == params_view(params@),
                self@ == v0.add_all(merchant, ps.take(k as int), now),
                self.invoice_count == v0.invoice_count + k,
                v0.invoice_count + params@.len() <= u64::MAX,
                ids@ == Seq::new(k as nat, |i: int| (v0.invoice_count + 1 + i) as u64),
                forall|i: int| 0 <= i < ps.len() ==> now + (#[trigger] ps[i]).expires_in_seconds <= u64::MAX,
            decreases params.len() - k,
        {
            let p = &params[k];
            assert(ps[k as int] == p@);
            assert(ps.take(k + 1).drop_last() =~= ps.take(k as int));
            let expires_at = now + p.expires_in_seconds;
            let id = self.add_invoice(
                merchant,
                p.amount_usdc,
                p.gross_usdc,
                expires_at,
                copy_maybe_bytes(&p.metadata_hash),
                copy_maybe_bytes(&p.payment_link_hash),
                p.merchant_nonce,
                p.token_address,
            );
            ids.push(id);
            k = k + 1;
            assert(ids@ =~= Seq::new(k as nat, |i: int| (v0.invoice_count + 1 + i) as u64));
        }
        assert(ps.take(ps.len() as int) =~= ps);
        Ok(ids)
    }

    /// Expires every listed invoice that is pending and whose expiry has
    /// passed at `now`; other and unknown IDs are skipped. Returns the IDs
    /// expired, in order. Admin-only.
    pub fn batch_expire(&mut self, admin: u64, ids: &Vec<u64>, now: u64) -> (r: Result<
        Vec<u64>,
        InvoiceError,
    >)
        requires
            old(self)@.admin is Some,
        ensures
            match old(self)@.batch_expire(admin, ids@, now) {
                Ok((v, done)) => r is Ok && r->Ok_0@ == done && final(self)@ == v,
                Err(e) => r == Err::<Vec<u64>, InvoiceError>(e) && final(self)@ == old(self)@,
            },
    {
        match self.require_admin(admin) {
            Ok(()) => {},
            Err(e) => {
                return Err(e);
            },
        }
        if self.paused {
            return Err(InvoiceError::ContractPaused);
        }
        if ids.len() > MAX_BATCH_EXPIRE as usize {
            return Err(InvoiceError::BatchTooLarge);
        }
        let ghost v0 = self@;
        let mut done: Vec<u64> = Vec::new();
        let mut k: usize = 0;
        while k < ids.len()
            invariant
                k <= ids.len(),
                (self@, done@) == v0.expire_all(ids@.take(k as int), now),
            decreases ids.len() - k,
        {
            assert(ids@.take(k + 1).drop_last() =~= ids@.take(k as int));
            let id = ids[k];
            let expirable = match self.invoices.get(&id) {
                Some(inv) => inv.status == InvoiceStatus::Pending && now >= inv.expires_at,
                None => false,
            };
            if expirable {
                self.transition(id, InvoiceStatus::Pending, InvoiceStatus::Expired, now);
                self.remove_pending(id);
                done.push(id);
            }
            k = k + 1;
        }
        assert(ids@.take(ids@.len() as int) =~= ids@);
        Ok(done)
    }

}

} // verus!
