//! Laws of the invoice contract: the state invariant every entrypoint keeps,
//! the lifecycle edges an invoice may follow, and what one call means for a
//! later one.
use vstd::prelude::*;

use super::contract::new_invoice;
use super::contract::params_view;
use super::contract::without;
use super::contract::InvoiceContractView;
use super::refund::net_refund_spec;
use super::refund::payment_state_consistent;
use super::types::BatchInvoiceParams;
use super::types::BatchInvoiceParamsView;
use super::types::InvoiceError;
use super::types::InvoiceStatus;
use super::types::InvoiceView;
use super::types::MaybeAddress;
use super::validation::amount_error;

verus! {

/// Whether an invoice may move from status `from` to status `to`.
pub open spec fn lifecycle_edge(from: InvoiceStatus, to: InvoiceStatus) -> bool {
    match from {
        InvoiceStatus::Pending => to == InvoiceStatus::Paid || to == InvoiceStatus::Expired || to
            == InvoiceStatus::Cancelled,
        InvoiceStatus::Paid => to == InvoiceStatus::Released || to
            == InvoiceStatus::RefundRequested,
        InvoiceStatus::RefundRequested => to == InvoiceStatus::Refunded || to
            == InvoiceStatus::Paid,
        _ => false,
    }
}

/// The per-invoice part of the state invariant: the amount pair passed
/// validation, and an invoice that got past `Pending` by payment carries its
/// payment record.
pub open spec fn invoice_ok(inv: InvoiceView) -> bool {
    &&& inv.amount_usdc > 0
    &&& inv.gross_usdc >= inv.amount_usdc
    &&& (inv.status == InvoiceStatus::Paid || inv.status == InvoiceStatus::RefundRequested
        || inv.status == InvoiceStatus::Released || inv.status == InvoiceStatus::Refunded) ==> (
    inv.paid_at is Some && inv.payer is Some)
}

impl InvoiceContractView {
    /// The state invariant: invoices are stored under their own IDs, which
    /// run from `1` to the invoice count; each invoice satisfies
    /// [`invoice_ok`]; the pending index lists exactly the pending
    /// invoices, each once; and a refund breakdown is recorded only for a
    /// stored invoice that was refunded.
    pub open spec fn wf(self) -> bool {
        &&& forall|id: u64|
            #[trigger] self.invoices.contains_key(id) ==> 1 <= id <= self.invoice_count
                && self.invoices[id].id == id && invoice_ok(self.invoices[id])
        &&& forall|id: u64|
            #[trigger] self.pending.contains(id) <==> (self.invoices.contains_key(id)
                && self.invoices[id].status == InvoiceStatus::Pending)
        &&& self.pending.no_duplicates()
        &&& forall|id: u64|
            #[trigger] self.refunds.contains_key(id) ==> self.invoices.contains_key(id)
                && self.invoices[id].status == InvoiceStatus::Refunded
    }

    /// Every invoice of `self` is still stored in `w`, with the same status
    /// or one a lifecycle edge away.
    pub open spec fn follows_lifecycle(self, w: InvoiceContractView) -> bool {
        forall|id: u64|
            #[trigger] self.invoices.contains_key(id) ==> w.invoices.contains_key(id) && (
            w.invoices[id].status == self.invoices[id].status || lifecycle_edge(
                self.invoices[id].status,
                w.invoices[id].status,
            ))
    }
}

proof fn lemma_without(s: Seq<u64>, x: u64)
    ensures
        forall|y: u64| #[trigger] without(s, x).contains(y) <==> (s.contains(y) && y != x),
        s.no_duplicates() ==> without(s, x).no_duplicates(),
    decreases s.len(),
{
    if s.len() > 0 {
        lemma_without(s.drop_last(), x);
        let t = without(s.drop_last(), x);
        assert forall|y: u64| #[trigger] without(s, x).contains(y) <==> (s.contains(y) && y != x) by {
            if s.contains(y) {
                let i = choose|i: int| 0 <= i < s.len() && s[i] == y;
                if i < s.len() - 1 {
                    assert(s.drop_last()[i] == y);
                }
            }
            if s.drop_last().contains(y) {
                let i = choose|i: int| 0 <= i < s.drop_last().len() && s.drop_last()[i] == y;
                assert(s[i] == y);
            }
            if s.last() != x {
                if t.push(s.last()).contains(y) {
                    let i = choose|i: int| 0 <= i < t.push(s.last()).len() && t.push(s.last())[i] == y;
                    if i < t.len() {
                        assert(t[i] == y);
                    }
                }
                if t.contains(y) {
                    let i = choose|i: int| 0 <= i < t.len() && t[i] == y;
                    assert(t.push(s.last())[i] == y);
                }
                if y == s.last() {
                    assert(t.push(s.last())[t.len() as int] == y);
                }
            }
        }
        if s.no_duplicates() {
            assert(s.drop_last().no_duplicates()) by {
                assert forall|i: int, j: int|
                    0 <= i < s.drop_last().len() && 0 <= j < s.drop_last().len() && i != j
                    implies s.drop_last()[i] != s.drop_last()[j] by {
                    assert(s[i] == s.drop_last()[i] && s[j] == s.drop_last()[j]);
                }
            }
            if s.last() != x {
                assert(!t.contains(s.last())) by {
                    if s.drop_last().contains(s.last()) {
                        let i = choose|i: int|
                            0 <= i < s.drop_last().len() && s.drop_last()[i] == s.last();
                        assert(s[i] == s[s.len() - 1]);
                    }
                }
                assert(t.push(s.last()).no_duplicates()) by {
                    assert forall|i: int, j: int|
                        0 <= i < t.push(s.last()).len() && 0 <= j < t.push(s.last()).len() && i
                            != j implies t.push(s.last())[i] != t.push(s.last())[j] by {
                        if i < t.len() && j < t.len() {
                        } else if i < t.len() {
                            assert(t.contains(t[i]));
                        } else if j < t.len() {
                            assert(t.contains(t[j]));
                        }
                    }
                }
            }
        }
    }
}

proof fn lemma_push_no_dup(s: Seq<u64>, x: u64)
    requires
        s.no_duplicates(),
        !s.contains(x),
    ensures
        s.push(x).no_duplicates(),
        forall|y: u64| #[trigger] s.push(x).contains(y) <==> (s.contains(y) || y == x),
{
    assert forall|i: int, j: int|
        0 <= i < s.push(x).len() && 0 <= j < s.push(x).len() && i != j implies s.push(x)[i]
            != s.push(x)[j] by {
        if i < s.len() && j < s.len() {
        } else if i < s.len() {
            assert(s.contains(s[i]));
        } else if j < s.len() {
            assert(s.contains(s[j]));
        }
    }
    assert forall|y: u64| #[trigger] s.push(x).contains(y) <==> (s.contains(y) || y == x) by {
        if s.push(x).contains(y) {
            let i = choose|i: int| 0 <= i < s.push(x).len() && s.push(x)[i] == y;
            if i < s.len() {
                assert(s[i] == y);
            }
        }
        if s.contains(y) {
            let i = choose|i: int| 0 <= i < s.len() && s[i] == y;
            assert(s.push(x)[i] == y);
        }
        if y == x {
            assert(s.push(x)[s.len() as int] == y);
        }
    }
}

/// Adding one valid invoice keeps the invariant.
proof fn lemma_add_invoice_wf(
    v: InvoiceContractView,
    merchant: u64,
    amount: i128,
    gross: i128,
    expires_at: u64,
    metadata_hash: Option<Seq<u8>>,
    payment_link_hash: Option<Seq<u8>>,
    nonce: u64,
    token: MaybeAddress,
)
    requires
        v.wf(),
        v.invoice_count < u64::MAX,
        amount_error(amount, gross) is None,
    ensures
        v.add_invoice(
            merchant,
            amount,
            gross,
            expires_at,
            metadata_hash,
            payment_link_hash,
            nonce,
            token,
        ).wf(),
        v.follows_lifecycle(
            v.add_invoice(
                merchant,
                amount,
                gross,
                expires_at,
                metadata_hash,
                payment_link_hash,
                nonce,
                token,
            ),
        ),
        v.add_invoice(
            merchant,
            amount,
            gross,
            expires_at,
            metadata_hash,
            payment_link_hash,
            nonce,
            token,
        ).invoice_count == v.invoice_count + 1,
{
    let id = (v.invoice_count + 1) as u64;
    assert(!v.invoices.contains_key(id));
    assert(!v.pending.contains(id));
    lemma_push_no_dup(v.pending, id);
}

/// A status transition along a lifecycle edge keeps the invariant when the
/// pending index is updated accordingly.
proof fn lemma_transition_wf(
    v: InvoiceContractView,
    id: u64,
    from: InvoiceStatus,
    to: InvoiceStatus,
    now: u64,
)
    requires
        v.wf(),
        v.invoices.contains_key(id),
        v.invoices[id].status == from,
        lifecycle_edge(from, to),
        from != InvoiceStatus::Pending,
        to != InvoiceStatus::Pending,
    ensures
        v.transition(id, from, to, now).wf(),
        v.follows_lifecycle(v.transition(id, from, to, now)),
{
    let w = v.transition(id, from, to, now);
    assert forall|x: u64| #[trigger] w.pending.contains(x) <==> (w.invoices.contains_key(x)
        && w.invoices[x].status == InvoiceStatus::Pending) by {
        if x != id {
            assert(v.pending.contains(x) <==> (v.invoices.contains_key(x)
                && v.invoices[x].status == InvoiceStatus::Pending));
        } else {
            assert(!v.pending.contains(x));
        }
    }
}

/// Leaving `Pending` (paid, cancelled or expired) keeps the invariant once
/// the ID leaves the pending index.
proof fn lemma_leave_pending_wf(v: InvoiceContractView, w: InvoiceContractView, id: u64)
    requires
        v.wf(),
        v.invoices.contains_key(id),
        v.invoices[id].status == InvoiceStatus::Pending,
        w.invoice_count == v.invoice_count,
        w.refunds == v.refunds,
        w.pending == without(v.pending, id),
        forall|x: u64| #[trigger] w.invoices.contains_key(x) <==> v.invoices.contains_key(x),
        forall|x: u64| x != id && #[trigger] v.invoices.contains_key(x) ==> w.invoices[x] == v.invoices[x],
        w.invoices[id].id == id,
        w.invoices[id].status != InvoiceStatus::Pending,
        lifecycle_edge(InvoiceStatus::Pending, w.invoices[id].status),
        invoice_ok(w.invoices[id]),
    ensures
        w.wf(),
        v.follows_lifecycle(w),
{
    lemma_without(v.pending, id);
    assert forall|x: u64| #[trigger] w.invoices.contains_key(x) implies 1 <= x <= w.invoice_count
        && w.invoices[x].id == x && invoice_ok(w.invoices[x]) by {
        assert(v.invoices.contains_key(x));
    }
    assert forall|x: u64| #[trigger] w.pending.contains(x) <==> (w.invoices.contains_key(x)
        && w.invoices[x].status == InvoiceStatus::Pending) by {
        assert(v.pending.contains(x) <==> (v.invoices.contains_key(x)
            && v.invoices[x].status == InvoiceStatus::Pending));
        assert(w.invoices.contains_key(x) == v.invoices.contains_key(x));
    }
    assert forall|x: u64| #[trigger] v.invoices.contains_key(x) implies w.invoices.contains_key(x)
        && (w.invoices[x].status == v.invoices[x].status || lifecycle_edge(
        v.invoices[x].status,
        w.invoices[x].status,
    )) by {
        assert(w.invoices.contains_key(x));
    }
}

proof fn lemma_batch_error_none_prefix(
    v: InvoiceContractView,
    merchant: u64,
    ps: Seq<BatchInvoiceParamsView>,
    k: int,
)
    requires
        0 <= k,
        v.batch_error(merchant, ps, k) is None,
    ensures
        forall|i: int| 0 <= i < k ==> v.batch_param_error(merchant, ps, i) is None,
    decreases k,
{
    if k > 0 {
        lemma_batch_error_none_prefix(v, merchant, ps, k - 1);
    }
}

/// Storing the invoices of `ps` gives them the next IDs, in order, each
/// with the fields of its parameters and a lifetime counted from `now`,
/// and leaves the invoices stored before untouched.
proof fn lemma_add_all_stores(
    v: InvoiceContractView,
    merchant: u64,
    ps: Seq<BatchInvoiceParamsView>,
    now: u64,
)
    requires
        v.invoice_count + ps.len() <= u64::MAX,
    ensures
        v.add_all(merchant, ps, now).invoice_count == v.invoice_count + ps.len(),
        forall|id: u64|
            v.invoice_count < id <= v.invoice_count + ps.len() ==> {
                &&& #[trigger] v.add_all(merchant, ps, now).invoices.contains_key(id)
                &&& v.add_all(merchant, ps, now).pending.contains(id)
                &&& v.add_all(merchant, ps, now).invoices[id] == new_invoice(
                    id,
                    merchant,
                    ps[id - v.invoice_count - 1].amount_usdc,
                    ps[id - v.invoice_count - 1].gross_usdc,
                    (now + ps[id - v.invoice_count - 1].expires_in_seconds) as u64,
                    ps[id - v.invoice_count - 1].metadata_hash,
                    ps[id - v.invoice_count - 1].payment_link_hash,
                    ps[id - v.invoice_count - 1].merchant_nonce,
                    ps[id - v.invoice_count - 1].token_address,
                )
            },
        forall|id: u64|
            id <= v.invoice_count ==> (#[trigger] v.add_all(merchant, ps, now).invoices.contains_key(
                id,
            ) == v.invoices.contains_key(id) && v.add_all(merchant, ps, now).invoices[id]
                == v.invoices[id]),
    decreases ps.len(),
{
    if ps.len() > 0 {
        let t = ps.drop_last();
        lemma_add_all_stores(v, merchant, t, now);
        let u = v.add_all(merchant, t, now);
        let w = v.add_all(merchant, ps, now);
        let new_id = (u.invoice_count + 1) as u64;
        assert(new_id == v.invoice_count + ps.len());
        assert forall|id: u64| v.invoice_count < id <= v.invoice_count + ps.len() implies {
            &&& #[trigger] w.invoices.contains_key(id)
            &&& w.pending.contains(id)
            &&& w.invoices[id] == new_invoice(
                id,
                merchant,
                ps[id - v.invoice_count - 1].amount_usdc,
                ps[id - v.invoice_count - 1].gross_usdc,
                (now + ps[id - v.invoice_count - 1].expires_in_seconds) as u64,
                ps[id - v.invoice_count - 1].metadata_hash,
                ps[id - v.invoice_count - 1].payment_link_hash,
                ps[id - v.invoice_count - 1].merchant_nonce,
                ps[id - v.invoice_count - 1].token_address,
            )
        } by {
            if id == new_id {
                assert(w.pending[w.pending.len() - 1] == id);
            } else {
                assert(u.invoices.contains_key(id));
                assert(u.pending.contains(id));
                let j = choose|j: int| 0 <= j < u.pending.len() && u.pending[j] == id;
                assert(w.pending[j] == id);
                assert(t[id - v.invoice_count - 1] == ps[id - v.invoice_count - 1]);
            }
        }
        assert forall|id: u64| id <= v.invoice_count implies (#[trigger] w.invoices.contains_key(
            id,
        ) == v.invoices.contains_key(id) && w.invoices[id] == v.invoices[id]) by {
            assert(u.invoices.contains_key(id) == v.invoices.contains_key(id));
        }
    }
}

/// A batch creates one invoice per parameter set, under consecutive new IDs
/// returned in order. Each new invoice is pending, belongs to the merchant,
/// carries its parameters' amounts, hashes, nonce and token, has no payment
/// yet, and expires `expires_in_seconds` after `now`, exactly as
/// `create_invoice` would store it.
pub proof fn law_batch_creates_as_given(
    v: InvoiceContractView,
    merchant: u64,
    ps: Seq<BatchInvoiceParamsView>,
    now: u64,
)
    requires
        v.invoice_count + ps.len() <= u64::MAX,
    ensures
        v.batch_create_invoice(merchant, ps, now) matches Ok((w, ids)) ==> {
            &&& ids.len() == ps.len()
            &&& w.invoice_count == v.invoice_count + ps.len()
            &&& forall|i: int|
                0 <= i < ps.len() ==> {
                    &&& #[trigger] ids[i] == v.invoice_count + 1 + i
                    &&& w.invoices.contains_key(ids[i])
                    &&& w.pending.contains(ids[i])
                    &&& w.invoices[ids[i]].id == ids[i]
                    &&& w.invoices[ids[i]].merchant == merchant
                    &&& w.invoices[ids[i]].status == InvoiceStatus::Pending
                    &&& w.invoices[ids[i]].amount_usdc == ps[i].amount_usdc
                    &&& w.invoices[ids[i]].gross_usdc == ps[i].gross_usdc
                    &&& w.invoices[ids[i]].expires_at == now + ps[i].expires_in_seconds
                    &&& w.invoices[ids[i]].paid_at is None
                    &&& w.invoices[ids[i]].payer is None
                    &&& w.invoices[ids[i]].metadata_hash == ps[i].metadata_hash
                    &&& w.invoices[ids[i]].payment_link_hash == ps[i].payment_link_hash
                    &&& w.invoices[ids[i]].merchant_nonce == ps[i].merchant_nonce
                    &&& w.invoices[ids[i]].token_address == ps[i].token_address
                }
        },
{
    if v.batch_create_invoice(merchant, ps, now) is Ok {
        lemma_add_all_stores(v, merchant, ps, now);
        let (w, ids) = v.batch_create_invoice(merchant, ps, now).unwrap();
        assert forall|i: int| 0 <= i < ps.len() implies now + (#[trigger] ps[i]).expires_in_seconds
            <= u64::MAX by {}
        assert forall|i: int| 0 <= i < ps.len() implies {
            &&& #[trigger] ids[i] == v.invoice_count + 1 + i
            &&& w.invoices.contains_key(ids[i])
            &&& w.pending.contains(ids[i])
            &&& w.invoices[ids[i]].id == ids[i]
            &&& w.invoices[ids[i]].merchant == merchant
            &&& w.invoices[ids[i]].status == InvoiceStatus::Pending
            &&& w.invoices[ids[i]].amount_usdc == ps[i].amount_usdc
            &&& w.invoices[ids[i]].gross_usdc == ps[i].gross_usdc
            &&& w.invoices[ids[i]].expires_at == now + ps[i].expires_in_seconds
            &&& w.invoices[ids[i]].paid_at is None
            &&& w.invoices[ids[i]].payer is None
            &&& w.invoices[ids[i]].metadata_hash == ps[i].metadata_hash
            &&& w.invoices[ids[i]].payment_link_hash == ps[i].payment_link_hash
            &&& w.invoices[ids[i]].merchant_nonce == ps[i].merchant_nonce
            &&& w.invoices[ids[i]].token_address == ps[i].token_address
        } by {
            let id = ids[i];
            assert(id == v.invoice_count + 1 + i);
            assert(id - v.invoice_count - 1 == i);
            assert(now + ps[i].expires_in_seconds <= u64::MAX);
            assert(w.invoices.contains_key(id));
        }
    }
}

/// A batch of one stores exactly what `create_invoice` stores for the same
/// parameters at the same time, under the same ID.
pub proof fn law_batch_of_one_matches_create(
    v: InvoiceContractView,
    merchant: u64,
    p: BatchInvoiceParamsView,
    now: u64,
)
    ensures
        v.batch_create_invoice(merchant, seq![p], now) matches Ok((w, ids)) ==> (v.create_invoice(
            merchant,
            p.amount_usdc,
            p.gross_usdc,
            p.expires_in_seconds,
            p.metadata_hash,
            p.payment_link_hash,
            p.merchant_nonce,
            p.token_address,
            now,
        ) matches Ok((w2, id)) ==> w == w2 && ids == seq![id]),
{
    assert(seq![p].drop_last() =~= Seq::<BatchInvoiceParamsView>::empty());
    assert(seq![p].last() == p);
    assert(v.add_all(merchant, Seq::<BatchInvoiceParamsView>::empty(), now) == v);
    assert(v.add_all(merchant, seq![p], now) == v.add_invoice(
        merchant,
        p.amount_usdc,
        p.gross_usdc,
        (now + p.expires_in_seconds) as u64,
        p.metadata_hash,
        p.payment_link_hash,
        p.merchant_nonce,
        p.token_address,
    ));
    let c = v.create_invoice(
        merchant,
        p.amount_usdc,
        p.gross_usdc,
        p.expires_in_seconds,
        p.metadata_hash,
        p.payment_link_hash,
        p.merchant_nonce,
        p.token_address,
        now,
    );
    if v.batch_create_invoice(merchant, seq![p], now) is Ok && c is Ok {
        let (w, ids) = v.batch_create_invoice(merchant, seq![p], now).unwrap();
        let (w2, id) = c.unwrap();
        assert(id == (v.invoice_count + 1) as u64);
        assert(ids.len() == 1);
        assert(ids[0] == id);
        assert(ids =~= seq![id]);
        assert(w =~= w2);
    }
}

proof fn lemma_add_all_wf(
    v: InvoiceContractView,
    merchant: u64,
    ps: Seq<BatchInvoiceParamsView>,
    now: u64,
)
    requires
        v.wf(),
        v.invoice_count + ps.len() <= u64::MAX,
        forall|i: int| 0 <= i < ps.len() ==> amount_error(#[trigger] ps[i].amount_usdc, ps[i].gross_usdc) is None,
    ensures
        v.add_all(merchant, ps, now).wf(),
        v.follows_lifecycle(v.add_all(merchant, ps, now)),
        v.add_all(merchant, ps, now).invoice_count == v.invoice_count + ps.len(),
    decreases ps.len(),
{
    if ps.len() > 0 {
        let ps2 = ps.drop_last();
        assert forall|i: int| 0 <= i < ps2.len() implies amount_error(
            #[trigger] ps2[i].amount_usdc,
            ps2[i].gross_usdc,
        ) is None by {
            assert(ps2[i] == ps[i]);
        }
        lemma_add_all_wf(v, merchant, ps2, now);
        let u = v.add_all(merchant, ps2, now);
        let p = ps.last();
        assert(amount_error(ps[ps.len() - 1].amount_usdc, ps[ps.len() - 1].gross_usdc) is None);
        lemma_add_invoice_wf(
            u,
            merchant,
            p.amount_usdc,
            p.gross_usdc,
            (now + p.expires_in_seconds) as u64,
            p.metadata_hash,
            p.payment_link_hash,
            p.merchant_nonce,
            p.token_address,
        );
        let w = v.add_all(merchant, ps, now);
        assert forall|id: u64| #[trigger] v.invoices.contains_key(id) implies w.invoices.contains_key(
            id,
        ) && (w.invoices[id].status == v.invoices[id].status || lifecycle_edge(
            v.invoices[id].status,
            w.invoices[id].status,
        )) by {
            assert(u.invoices.contains_key(id));
            assert(u.invoices[id].status == v.invoices[id].status || lifecycle_edge(
                v.invoices[id].status,
                u.invoices[id].status,
            ));
        }
    }
}

proof fn lemma_expire_all_wf(v: InvoiceContractView, ids: Seq<u64>, now: u64)
    requires
        v.wf(),
    ensures
        v.expire_all(ids, now).0.wf(),
        v.follows_lifecycle(v.expire_all(ids, now).0),
    decreases ids.len(),
{
    if ids.len() > 0 {
        lemma_expire_all_wf(v, ids.drop_last(), now);
        let u = v.expire_all(ids.drop_last(), now).0;
        let id = ids.last();
        if u.expirable(id, now) {
            let w = v.expire_all(ids, now).0;
            lemma_leave_pending_wf(u, w, id);
            assert forall|x: u64| #[trigger] v.invoices.contains_key(x) implies w.invoices.contains_key(
                x,
            ) && (w.invoices[x].status == v.invoices[x].status || lifecycle_edge(
                v.invoices[x].status,
                w.invoices[x].status,
            )) by {
                assert(u.invoices.contains_key(x));
                assert(w.invoices.contains_key(x));
            }
        }
    }
}

/// Every entrypoint that succeeds keeps the state invariant, and moves each
/// existing invoice along the lifecycle (`Pending` → `Paid` | `Expired` |
/// `Cancelled`, `Paid` → `Released` | `RefundRequested`, `RefundRequested`
/// → `Refunded` | `Paid`) without ever dropping one.
pub proof fn law_entrypoints_preserve_wf(
    v: InvoiceContractView,
    admin: u64,
    caller: u64,
    merchant: u64,
    id: u64,
    amount: i128,
    gross: i128,
    secs: u64,
    metadata_hash: Option<Seq<u8>>,
    payment_link_hash: Option<Seq<u8>>,
    nonce: u64,
    token: MaybeAddress,
    fee_bps: u32,
    ids: Seq<u64>,
    ps: Seq<BatchInvoiceParamsView>,
    now: u64,
)
    requires
        v.wf(),
    ensures
        v.create_invoice(
            merchant,
            amount,
            gross,
            secs,
            metadata_hash,
            payment_link_hash,
            nonce,
            token,
            now,
        ) matches Ok((w, _)) ==> w.wf() && v.follows_lifecycle(w),
        v.invoice_count + ps.len() <= u64::MAX ==> (v.batch_create_invoice(merchant, ps, now) matches Ok((w, _))
            ==> w.wf() && v.follows_lifecycle(w)),
        v.mark_paid(admin, id, caller, metadata_hash, token, now) matches Ok(w) ==> w.wf()
            && v.follows_lifecycle(w),
        v.release_escrow(admin, id, now) matches Ok(w) ==> w.wf() && v.follows_lifecycle(w),
        v.approve_refund(admin, id, now) matches Ok(w) ==> w.wf() && v.follows_lifecycle(w),
        v.reject_refund(admin, id, now) matches Ok(w) ==> w.wf() && v.follows_lifecycle(w),
        v.cancel_invoice(caller, id, now) matches Ok(w) ==> w.wf() && v.follows_lifecycle(w),
        v.amend_invoice(merchant, id, amount, gross, secs, now) matches Ok(w) ==> w.wf()
            && v.follows_lifecycle(w),
        v.request_refund(caller, id, now) matches Ok(w) ==> w.wf() && v.follows_lifecycle(w),
        v.process_refund(admin, id, fee_bps, true, now) matches Ok((w, _)) ==> w.wf()
            && v.follows_lifecycle(w),
        v.batch_expire(admin, ids, now) matches Ok((w, _)) ==> w.wf() && v.follows_lifecycle(w),
{
    if v.create_invoice(
        merchant,
        amount,
        gross,
        secs,
        metadata_hash,
        payment_link_hash,
        nonce,
        token,
        now,
    ) is Ok {
        lemma_add_invoice_wf(
            v,
            merchant,
            amount,
            gross,
            (now + secs) as u64,
            metadata_hash,
            payment_link_hash,
            nonce,
            token,
        );
    }
    if v.invoice_count + ps.len() <= u64::MAX && v.batch_create_invoice(merchant, ps, now) is Ok {
        lemma_batch_error_none_prefix(v, merchant, ps, ps.len() as int);
        assert forall|i: int| 0 <= i < ps.len() implies amount_error(
            #[trigger] ps[i].amount_usdc,
            ps[i].gross_usdc,
        ) is None by {
            assert(v.batch_param_error(merchant, ps, i) is None);
        }
        lemma_add_all_wf(v, merchant, ps, now);
    }
    if v.mark_paid(admin, id, caller, metadata_hash, token, now) is Ok {
        let w = v.mark_paid(admin, id, caller, metadata_hash, token, now).unwrap();
        lemma_leave_pending_wf(v, w, id);
    }
    if v.release_escrow(admin, id, now) is Ok {
        lemma_transition_wf(v, id, InvoiceStatus::Paid, InvoiceStatus::Released, now);
    }
    if v.approve_refund(admin, id, now) is Ok {
        lemma_transition_wf(v, id, InvoiceStatus::RefundRequested, InvoiceStatus::Refunded, now);
    }
    if v.reject_refund(admin, id, now) is Ok {
        lemma_transition_wf(v, id, InvoiceStatus::RefundRequested, InvoiceStatus::Paid, now);
    }
    if v.cancel_invoice(caller, id, now) is Ok {
        let w = v.cancel_invoice(caller, id, now).unwrap();
        lemma_leave_pending_wf(v, w, id);
    }
    if v.amend_invoice(merchant, id, amount, gross, secs, now) is Ok {
        let w = v.amend_invoice(merchant, id, amount, gross, secs, now).unwrap();
        assert forall|x: u64| #[trigger] w.pending.contains(x) <==> (w.invoices.contains_key(x)
            && w.invoices[x].status == InvoiceStatus::Pending) by {
            assert(v.pending.contains(x) <==> (v.invoices.contains_key(x)
                && v.invoices[x].status == InvoiceStatus::Pending));
        }
    }
    if v.request_refund(caller, id, now) is Ok {
        lemma_transition_wf(v, id, InvoiceStatus::Paid, InvoiceStatus::RefundRequested, now);
    }
    if v.process_refund(admin, id, fee_bps, true, now) is Ok {
        lemma_transition_wf(v, id, InvoiceStatus::RefundRequested, InvoiceStatus::Refunded, now);
    }
    if v.batch_expire(admin, ids, now) is Ok {
        lemma_expire_all_wf(v, ids, now);
    }
}

/// On a state that satisfies the invariant, the payment-record check never
/// refuses a disputed invoice: approving, rejecting or paying out a refund
/// request fails only for the documented reasons.
pub proof fn law_disputed_invoices_have_payment_records(v: InvoiceContractView, id: u64)
    requires
        v.wf(),
        v.invoices.contains_key(id),
        v.invoices[id].status == InvoiceStatus::RefundRequested,
    ensures
        payment_state_consistent(v.invoices[id]),
{
}

/// Approving or rejecting a refund request records no fee breakdown for the
/// invoice: only a refund paid out by `process_refund` has one, so reading
/// the breakdown of an approved or rejected request gives `NotFound`.
pub proof fn law_settled_without_payout_has_no_breakdown(
    v: InvoiceContractView,
    admin: u64,
    id: u64,
    now: u64,
)
    requires
        v.wf(),
    ensures
        v.approve_refund(admin, id, now) matches Ok(w) ==> w.refunds == v.refunds
            && !w.refunds.contains_key(id),
        v.reject_refund(admin, id, now) matches Ok(w) ==> w.refunds == v.refunds
            && !w.refunds.contains_key(id),
{
}

proof fn lemma_add_invoice_keeps_nonce(
    v: InvoiceContractView,
    merchant: u64,
    amount: i128,
    gross: i128,
    expires_at: u64,
    metadata_hash: Option<Seq<u8>>,
    payment_link_hash: Option<Seq<u8>>,
    nonce: u64,
    token: MaybeAddress,
    m: u64,
    n: u64,
)
    requires
        v.nonce_used(m, n),
    ensures
        v.add_invoice(
            merchant,
            amount,
            gross,
            expires_at,
            metadata_hash,
            payment_link_hash,
            nonce,
            token,
        ).nonce_used(m, n),
{
    if nonce != 0 && merchant == m {
        let s = v.nonces_of(m);
        let i = choose|i: int| 0 <= i < s.len() && s[i] == n;
        assert(s.push(nonce)[i] == n);
    }
}

proof fn lemma_add_all_keeps_nonce(
    v: InvoiceContractView,
    merchant: u64,
    ps: Seq<BatchInvoiceParamsView>,
    now: u64,
    m: u64,
    n: u64,
)
    requires
        v.nonce_used(m, n),
    ensures
        v.add_all(merchant, ps, now).nonce_used(m, n),
    decreases ps.len(),
{
    if ps.len() > 0 {
        lemma_add_all_keeps_nonce(v, merchant, ps.drop_last(), now, m, n);
        let p = ps.last();
        lemma_add_invoice_keeps_nonce(
            v.add_all(merchant, ps.drop_last(), now),
            merchant,
            p.amount_usdc,
            p.gross_usdc,
            (now + p.expires_in_seconds) as u64,
            p.metadata_hash,
            p.payment_link_hash,
            p.merchant_nonce,
            p.token_address,
            m,
            n,
        );
    }
}

proof fn lemma_expire_all_keeps_nonces(v: InvoiceContractView, ids: Seq<u64>, now: u64)
    ensures
        v.expire_all(ids, now).0.used_nonces == v.used_nonces,
    decreases ids.len(),
{
    if ids.len() > 0 {
        lemma_expire_all_keeps_nonces(v, ids.drop_last(), now);
    }
}

/// A used nonce stays used. Creating invoices only adds nonces, and every
/// other entrypoint that succeeds (payment, release, refund approval,
/// rejection or payout, cancellation, amendment, dispute, expiry, admin
/// handover) leaves each merchant's used nonces as they were; so once a
/// merchant created an invoice with a non-zero nonce, `create_invoice` with
/// that nonce keeps failing with `DuplicateNonce` whatever became of the
/// invoice.
pub proof fn law_used_nonce_persists(
    v: InvoiceContractView,
    m: u64,
    n: u64,
    admin: u64,
    caller: u64,
    merchant: u64,
    id: u64,
    amount: i128,
    gross: i128,
    secs: u64,
    metadata_hash: Option<Seq<u8>>,
    payment_link_hash: Option<Seq<u8>>,
    nonce: u64,
    token: MaybeAddress,
    fee_bps: u32,
    ids: Seq<u64>,
    ps: Seq<BatchInvoiceParamsView>,
    now: u64,
)
    requires
        v.nonce_used(m, n),
    ensures
        v.create_invoice(
            merchant,
            amount,
            gross,
            secs,
            metadata_hash,
            payment_link_hash,
            nonce,
            token,
            now,
        ) matches Ok((w, _)) ==> w.nonce_used(m, n),
        v.batch_create_invoice(merchant, ps, now) matches Ok((w, _)) ==> w.nonce_used(m, n),
        v.mark_paid(admin, id, caller, metadata_hash, token, now) matches Ok(w) ==> w.used_nonces
            == v.used_nonces,
        v.release_escrow(admin, id, now) matches Ok(w) ==> w.used_nonces == v.used_nonces,
        v.approve_refund(admin, id, now) matches Ok(w) ==> w.used_nonces == v.used_nonces,
        v.reject_refund(admin, id, now) matches Ok(w) ==> w.used_nonces == v.used_nonces,
        v.cancel_invoice(caller, id, now) matches Ok(w) ==> w.used_nonces == v.used_nonces,
        v.amend_invoice(merchant, id, amount, gross, secs, now) matches Ok(w) ==> w.used_nonces
            == v.used_nonces,
        v.request_refund(caller, id, now) matches Ok(w) ==> w.used_nonces == v.used_nonces,
        v.process_refund(admin, id, fee_bps, true, now) matches Ok((w, _)) ==> w.used_nonces
            == v.used_nonces,
        v.batch_expire(admin, ids, now) matches Ok((w, _)) ==> w.used_nonces == v.used_nonces,
        v.transfer_admin(caller, merchant) matches Ok(w) ==> w.used_nonces == v.used_nonces,
        v.accept_admin(caller) matches Ok(w) ==> w.used_nonces == v.used_nonces,
        n != 0 && !v.paused && amount_error(amount, gross) is None
            && super::validation::hash_len_ok(metadata_hash) && super::validation::hash_len_ok(
            payment_link_hash,
        ) && super::validation::payment_link_ok(payment_link_hash)
            && super::validation::duration_error(secs) is None ==> v.create_invoice(
            m,
            amount,
            gross,
            secs,
            metadata_hash,
            payment_link_hash,
            n,
            token,
            now,
        ) == Err::<(InvoiceContractView, u64), InvoiceError>(InvoiceError::DuplicateNonce),
{
    if v.create_invoice(
        merchant,
        amount,
        gross,
        secs,
        metadata_hash,
        payment_link_hash,
        nonce,
        token,
        now,
    ) is Ok {
        lemma_add_invoice_keeps_nonce(
            v,
            merchant,
            amount,
            gross,
            (now + secs) as u64,
            metadata_hash,
            payment_link_hash,
            nonce,
            token,
            m,
            n,
        );
    }
    lemma_add_all_keeps_nonce(v, merchant, ps, now, m, n);
    lemma_expire_all_keeps_nonces(v, ids, now);
}

/// A non-zero nonce is single-use per merchant: once an invoice was created
/// with it, creating another with it fails with `DuplicateNonce`, whatever
/// the other arguments.
pub proof fn law_nonce_single_use(
    v: InvoiceContractView,
    merchant: u64,
    nonce: u64,
    a1: i128,
    g1: i128,
    s1: u64,
    m1: Option<Seq<u8>>,
    l1: Option<Seq<u8>>,
    t1: MaybeAddress,
    a2: i128,
    g2: i128,
    s2: u64,
    m2: Option<Seq<u8>>,
    l2: Option<Seq<u8>>,
    t2: MaybeAddress,
    now1: u64,
    now2: u64,
)
    requires
        nonce != 0,
    ensures
        v.create_invoice(merchant, a1, g1, s1, m1, l1, nonce, t1, now1) matches Ok((w, _)) ==> (
        w.create_invoice(merchant, a2, g2, s2, m2, l2, nonce, t2, now2) is Err && (amount_error(
            a2,
            g2,
        ) is None && super::validation::hash_len_ok(m2) && super::validation::hash_len_ok(l2)
            && super::validation::payment_link_ok(l2) && super::validation::duration_error(s2) is None
            ==> w.create_invoice(merchant, a2, g2, s2, m2, l2, nonce, t2, now2) == Err::<
            (InvoiceContractView, u64),
            InvoiceError,
        >(InvoiceError::DuplicateNonce))),
{
    if v.create_invoice(merchant, a1, g1, s1, m1, l1, nonce, t1, now1) is Ok {
        let w = v.create_invoice(merchant, a1, g1, s1, m1, l1, nonce, t1, now1).unwrap().0;
        assert(w.nonces_of(merchant).last() == nonce);
        assert(w.nonces_of(merchant).contains(nonce));
    }
}

/// A created invoice is pending under the next ID and can be read back with
/// exactly the given fields.
pub proof fn law_create_then_read(
    v: InvoiceContractView,
    merchant: u64,
    amount: i128,
    gross: i128,
    secs: u64,
    metadata_hash: Option<Seq<u8>>,
    payment_link_hash: Option<Seq<u8>>,
    nonce: u64,
    token: MaybeAddress,
    now: u64,
)
    ensures
        v.create_invoice(
            merchant,
            amount,
            gross,
            secs,
            metadata_hash,
            payment_link_hash,
            nonce,
            token,
            now,
        ) matches Ok((w, id)) ==> {
            &&& id == v.invoice_count + 1
            &&& w.invoice_count == id
            &&& w.invoices[id] == new_invoice(
                id,
                merchant,
                amount,
                gross,
                (now + secs) as u64,
                metadata_hash,
                payment_link_hash,
                nonce,
                token,
            )
            &&& w.pending.last() == id
            &&& w.merchant_ids(merchant).last() == id
        },
{
}

/// A payment must be made in the invoice's token. When the invoice names a
/// token, a payment that names another token, or none, is refused with
/// `TokenMismatch` once the caller, pause, status and metadata checks pass;
/// so every accepted payment names the invoice's token. An accepted payment
/// is made on a pending invoice before its deadline, marks it `Paid` at
/// `now` by `payer`, keeps its amounts, expiry, merchant and token, and
/// leaves every other invoice as it was.
pub proof fn law_payment_in_invoice_token(
    v: InvoiceContractView,
    admin: u64,
    id: u64,
    payer: u64,
    metadata_hash: Option<Seq<u8>>,
    token: MaybeAddress,
    now: u64,
    other: u64,
)
    ensures
        v.mark_paid(admin, id, payer, metadata_hash, token, now) matches Ok(w) ==> {
            &&& v.invoices.contains_key(id)
            &&& v.invoices[id].status == InvoiceStatus::Pending
            &&& v.invoices[id].token_address is Some ==> token == v.invoices[id].token_address
            &&& now < v.invoices[id].expires_at + v.grace_window
            &&& w.invoices.contains_key(id)
            &&& w.invoices[id].status == InvoiceStatus::Paid
            &&& w.invoices[id].paid_at == Some(now)
            &&& w.invoices[id].payer == Some(payer)
            &&& w.invoices[id].amount_usdc == v.invoices[id].amount_usdc
            &&& w.invoices[id].gross_usdc == v.invoices[id].gross_usdc
            &&& w.invoices[id].expires_at == v.invoices[id].expires_at
            &&& w.invoices[id].merchant == v.invoices[id].merchant
            &&& w.invoices[id].token_address == v.invoices[id].token_address
            &&& other != id ==> w.invoices.contains_key(other) == v.invoices.contains_key(other)
                && w.invoices[other] == v.invoices[other]
        },
        v.is_admin(admin) && !v.paused && v.invoices.contains_key(id) && v.invoices[id].status
            == InvoiceStatus::Pending && (metadata_hash is None || metadata_hash
            == v.invoices[id].metadata_hash) && v.invoices[id].token_address is Some && token
            != v.invoices[id].token_address ==> v.mark_paid(
            admin,
            id,
            payer,
            metadata_hash,
            token,
            now,
        ) == Err::<InvoiceContractView, InvoiceError>(InvoiceError::TokenMismatch),
{
}

/// Only a pending invoice can be amended, and only by its merchant: an
/// amendment that passes the pause and input checks is refused with
/// `NotPending` on an invoice of that merchant that is no longer pending.
/// A successful amendment leaves the invoice pending with the new amounts
/// and a lifetime restarted at `now`, keeps its merchant, payment record and
/// token, and leaves every other invoice as it was.
pub proof fn law_amend_only_pending(
    v: InvoiceContractView,
    merchant: u64,
    id: u64,
    amount: i128,
    gross: i128,
    secs: u64,
    now: u64,
    other: u64,
)
    ensures
        v.amend_invoice(merchant, id, amount, gross, secs, now) matches Ok(w) ==> {
            &&& v.invoices.contains_key(id)
            &&& v.invoices[id].status == InvoiceStatus::Pending
            &&& v.invoices[id].merchant == merchant
            &&& w.invoices.contains_key(id)
            &&& w.invoices[id].status == InvoiceStatus::Pending
            &&& w.invoices[id].amount_usdc == amount
            &&& w.invoices[id].gross_usdc == gross
            &&& w.invoices[id].expires_at == now + secs
            &&& w.invoices[id].merchant == merchant
            &&& w.invoices[id].paid_at == v.invoices[id].paid_at
            &&& w.invoices[id].payer == v.invoices[id].payer
            &&& w.invoices[id].token_address == v.invoices[id].token_address
            &&& other != id ==> w.invoices.contains_key(other) == v.invoices.contains_key(other)
                && w.invoices[other] == v.invoices[other]
        },
        !v.paused && amount_error(amount, gross) is None && super::validation::duration_error(secs)
            is None && v.invoices.contains_key(id) && v.invoices[id].merchant == merchant
            && v.invoices[id].status != InvoiceStatus::Pending ==> v.amend_invoice(
            merchant,
            id,
            amount,
            gross,
            secs,
            now,
        ) == Err::<InvoiceContractView, InvoiceError>(InvoiceError::NotPending),
{
}

/// A payment is accepted strictly before the expiry plus the grace window
/// and refused from then on with `Expired`.
pub proof fn law_payment_deadline(
    v: InvoiceContractView,
    admin: u64,
    id: u64,
    payer: u64,
    token: MaybeAddress,
    now: u64,
)
    requires
        v.is_admin(admin),
        !v.paused,
        v.invoices.contains_key(id),
        v.invoices[id].status == InvoiceStatus::Pending,
        v.invoices[id].token_address is None || token == v.invoices[id].token_address,
    ensures
        (now >= super::contract::payment_deadline(v.invoices[id].expires_at, v.grace_window)) <==> (
        v.mark_paid(admin, id, payer, None, token, now) == Err::<
            InvoiceContractView,
            InvoiceError,
        >(InvoiceError::Expired)),
        now < super::contract::payment_deadline(v.invoices[id].expires_at, v.grace_window)
            ==> v.mark_paid(admin, id, payer, None, token, now) is Ok,
{
}

/// The refund preview is what the payout applies: a refund that completes
/// records and returns exactly the breakdown `calculate_net_refund` gives
/// for the invoice amount, and a failed transfer changes nothing.
pub proof fn law_refund_matches_preview(
    v: InvoiceContractView,
    admin: u64,
    id: u64,
    fee_bps: u32,
    now: u64,
)
    ensures
        v.process_refund(admin, id, fee_bps, true, now) matches Ok((w, n)) ==> {
            &&& net_refund_spec(v.invoices[id].amount_usdc, fee_bps) == Ok::<
                super::types::NetRefund,
                InvoiceError,
            >(n)
            &&& w.refunds[id] == n
            &&& w.invoices[id].status == InvoiceStatus::Refunded
        },
        v.refund_plan(admin, id, fee_bps) is Ok ==> v.process_refund(admin, id, fee_bps, false, now)
            == Err::<(InvoiceContractView, super::types::NetRefund), InvoiceError>(
            InvoiceError::RefundTransferFailed,
        ),
{
}

/// Pausing blocks every lifecycle mutation with `ContractPaused`.
pub proof fn law_pause_blocks_mutations(
    v: InvoiceContractView,
    admin: u64,
    caller: u64,
    id: u64,
    now: u64,
    ids: Seq<u64>,
)
    requires
        v.paused,
        v.is_admin(admin),
    ensures
        v.mark_paid(admin, id, caller, None, None, now) == Err::<InvoiceContractView, InvoiceError>(
            InvoiceError::ContractPaused,
        ),
        v.release_escrow(admin, id, now) == Err::<InvoiceContractView, InvoiceError>(
            InvoiceError::ContractPaused,
        ),
        v.cancel_invoice(caller, id, now) == Err::<InvoiceContractView, InvoiceError>(
            InvoiceError::ContractPaused,
        ),
        v.request_refund(caller, id, now) == Err::<InvoiceContractView, InvoiceError>(
            InvoiceError::ContractPaused,
        ),
        v.batch_expire(admin, ids, now) == Err::<(InvoiceContractView, Seq<u64>), InvoiceError>(
            InvoiceError::ContractPaused,
        ),
{
}

/// The admin changes hands in two steps: a nomination by anyone but the
/// admin is refused; after the admin's nomination the admin is unchanged,
/// only the nominee can accept, and acceptance makes the nominee admin and
/// clears the nomination, after which there is nothing left to accept.
pub proof fn law_admin_handover(v: InvoiceContractView, caller: u64, nominee: u64, other: u64)
    requires
        other != nominee,
    ensures
        !v.is_admin(caller) ==> v.transfer_admin(caller, nominee) == Err::<
            InvoiceContractView,
            InvoiceError,
        >(InvoiceError::Unauthorized),
        v.transfer_admin(caller, nominee) matches Ok(w) ==> {
            &&& w.admin == v.admin
            &&& w.accept_admin(other) == Err::<InvoiceContractView, InvoiceError>(
                InvoiceError::Unauthorized,
            )
            &&& w.accept_admin(nominee) matches Ok(z) && z.is_admin(nominee) && z.accept_admin(
                nominee,
            ) == Err::<InvoiceContractView, InvoiceError>(InvoiceError::NoPendingAdmin)
        },
{
}

} // verus!
