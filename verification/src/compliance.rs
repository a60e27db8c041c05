//! The compliance contract: an admin-managed allowlist and blocklist.
//!
//! The state is the contract's storage. `is_allowed` applies the documented
//! precedence rules: an active block (a block with no `blocked_until`, or one
//! whose `blocked_until` lies in the future) denies; otherwise the address
//! must be on the allowlist, and a time-bound allow only counts strictly
//! before its `allowed_until`.
use std::collections::HashMap;
use std::collections::HashSet;
use vstd::prelude::*;

use crate::seq_util::copy_bytes;

verus! {

broadcast use vstd::std_specs::hash::group_hash_axioms;

/// Upper bound on the number of distinct addresses kept in the address index.
pub const MAX_TRACKED_ADDRESSES: u32 = 50_000;

/// Maximum number of addresses accepted per bulk admin call.
pub const MAX_BATCH_SIZE: u32 = 50;

/// Minimum number of seconds between two calls of the same bulk entrypoint by
/// the same admin.
pub const BULK_OP_COOLDOWN_SECS: u64 = 60;

/// Coarse classification of an address's compliance state.
#[derive(Clone, Copy, Debug, PartialEq, Eq, Structural)]
pub enum AddressState {
    Allowed,
    Blocked,
    /// A time-bound allow or block whose expiry timestamp has passed.
    Expired,
}

/// Rich compliance status for a single address.
#[derive(Clone, Copy, Debug, PartialEq, Eq, Structural)]
pub struct AddressStatus {
    /// Whether the address has an active `Allowed` entry.
    pub allowed: bool,
    /// Whether the address has an active `Blocked` entry.
    pub blocked: bool,
    /// The `allowed_until` expiry timestamp, if a temporary allow was set.
    pub expires_at: Option<u64>,
    /// The result `is_allowed` gives for the address.
    pub is_currently_allowed: bool,
}

/// Standardised reason codes for a block. A block reason is stored as bytes;
/// a reason code is stored as its one-byte code.
#[derive(Clone, Copy, Debug, PartialEq, Eq, Structural)]
pub enum BlockReason {
    Sanctions,
    Fraud,
    ManualReview,
    CourtOrder,
    Other,
}

impl BlockReason {
    /// The byte that stands for the reason.
    pub open spec fn code_of(self) -> u8 {
        match self {
            BlockReason::Sanctions => 1,
            BlockReason::Fraud => 2,
            BlockReason::ManualReview => 3,
            BlockReason::CourtOrder => 4,
            BlockReason::Other => 5,
        }
    }

    /// The byte that stands for the reason.
    pub fn code(&self) -> (r: u8)
        ensures
            r == self.code_of(),
    {
        match self {
            BlockReason::Sanctions => 1,
            BlockReason::Fraud => 2,
            BlockReason::ManualReview => 3,
            BlockReason::CourtOrder => 4,
            BlockReason::Other => 5,
        }
    }

    /// The reason as the byte string that `block_address` stores.
    pub fn to_bytes(&self) -> (r: Vec<u8>)
        ensures
            r@ == seq![self.code_of()],
    {
        let mut v: Vec<u8> = Vec::new();
        v.push(self.code());
        v
    }
}

/// Errors returned by the compliance contract.
#[derive(Clone, Copy, Debug, PartialEq, Eq, Structural)]
pub enum ContractError {
    Unauthorized,
    ContractPaused,
    AlreadyInitialized,
    BatchTooLarge,
    AddressIndexFull,
    /// A bulk call came before `BULK_OP_COOLDOWN_SECS` elapsed since the same
    /// admin's previous call of that bulk entrypoint.
    BulkOperationCooldown,
    /// The operator tried to lift or change a block that it did not place
    /// itself.
    OperatorCannotClearAdminBlock,
}

/// The storage of the compliance contract.
pub struct ComplianceContract {
    /// The active administrator.
    pub admin: Option<u64>,
    /// The address staged by `transfer_admin`.
    pub pending_admin: Option<u64>,
    /// The operator role, which may read `address_status`, place blocks and
    /// lift the blocks it placed.
    pub operator: Option<u64>,
    /// Circuit-breaker flag.
    pub paused: bool,
    /// Schema version written at initialization.
    pub schema_version: Option<u32>,
    /// Addresses on the allowlist.
    pub allowed: HashSet<u64>,
    /// Addresses on the blocklist.
    pub blocked: HashSet<u64>,
    /// Expiry of time-bound allows.
    pub allowed_until: HashMap<u64, u64>,
    /// Lift time of auto-expiring blocks.
    pub blocked_until: HashMap<u64, u64>,
    /// Reason recorded when an address was blocked.
    pub block_reason: HashMap<u64, Vec<u8>>,
    /// Who placed each block that is in place: the admin or the operator.
    pub block_placer: HashMap<u64, u64>,
    /// Compliance tier recorded by `allow_address_with_tier`.
    pub tier: HashMap<u64, u32>,
    /// Every address any mutation has touched, in first-touch order.
    pub address_index: Vec<u64>,
    /// The members of `address_index`, for constant-time lookups.
    pub indexed: HashSet<u64>,
    /// Running count of addresses that became allowed.
    pub allow_count: u64,
    /// Running count of blocked addresses (only ever decremented by `clear_address`).
    pub block_count: u64,
    /// Time of each admin's last successful `bulk_allow_addresses`.
    pub last_bulk_allow: HashMap<u64, u64>,
    /// Time of each admin's last successful `bulk_block_addresses`.
    pub last_bulk_block: HashMap<u64, u64>,
}

/// The mathematical content of [`ComplianceContract`].
#[verifier::ext_equal]
pub struct ComplianceView {
    pub admin: Option<u64>,
    pub pending_admin: Option<u64>,
    pub operator: Option<u64>,
    pub paused: bool,
    pub schema_version: Option<u32>,
    pub allowed: Set<u64>,
    pub blocked: Set<u64>,
    pub allowed_until: Map<u64, u64>,
    pub blocked_until: Map<u64, u64>,
    pub block_reason: Map<u64, Seq<u8>>,
    pub placer: Map<u64, u64>,
    pub tier: Map<u64, u32>,
    pub index: Seq<u64>,
    pub allow_count: u64,
    pub block_count: u64,
    pub last_bulk_allow: Map<u64, u64>,
    pub last_bulk_block: Map<u64, u64>,
}

impl View for ComplianceContract {
    type V = ComplianceView;

    open spec fn view(&self) -> ComplianceView {
        ComplianceView {
            admin: self.admin,
            pending_admin: self.pending_admin,
            operator: self.operator,
            paused: self.paused,
            schema_version: self.schema_version,
            allowed: self.allowed@,
            blocked: self.blocked@,
            allowed_until: self.allowed_until@,
            blocked_until: self.blocked_until@,
            block_reason: self.block_reason@.map_values(|r: Vec<u8>| r@),
            placer: self.block_placer@,
            tier: self.tier@,
            index: self.address_index@,
            allow_count: self.allow_count,
            block_count: self.block_count,
            last_bulk_allow: self.last_bulk_allow@,
            last_bulk_block: self.last_bulk_block@,
        }
    }
}

/// `a + b`, capped at `u64::MAX`.
pub open spec fn sat_add(a: u64, b: u64) -> u64 {
    if a + b > u64::MAX {
        u64::MAX
    } else {
        (a + b) as u64
    }
}

/// `a - 1`, floored at zero.
pub open spec fn sat_dec(a: u64) -> u64 {
    if a == 0 {
        0
    } else {
        (a - 1) as u64
    }
}

/// The index after recording `a`: unchanged if `a` is already there,
/// otherwise `a` is appended.
pub open spec fn track(index: Seq<u64>, a: u64) -> Seq<u64> {
    if index.contains(a) {
        index
    } else {
        index.push(a)
    }
}

/// Whether recording `a` fits under the index cap.
pub open spec fn can_track(index: Seq<u64>, a: u64) -> bool {
    index.contains(a) || index.len() < MAX_TRACKED_ADDRESSES
}

/// Records each address of `s` in turn; `None` when some new address finds
/// the index already at its cap.
pub open spec fn track_all(index: Seq<u64>, s: Seq<u64>) -> Option<Seq<u64>>
    decreases s.len(),
{
    if s.len() == 0 {
        Some(index)
    } else {
        match track_all(index, s.drop_last()) {
            Some(i) => if can_track(i, s.last()) {
                Some(track(i, s.last()))
            } else {
                None
            },
            None => None,
        }
    }
}

impl ComplianceView {
    /// The state invariant: the index respects its cap and holds each
    /// address at most once, and every address with an allow, a block or an
    /// expiry is in it.
    pub open spec fn wf(self) -> bool {
        &&& self.index.len() <= MAX_TRACKED_ADDRESSES
        &&& self.index.no_duplicates()
        &&& self.recorded_in_index()
    }

    /// Every address that is allowed, blocked or carries an expiry is in the
    /// index.
    pub open spec fn recorded_in_index(self) -> bool {
        &&& forall|a: u64| #[trigger] self.allowed.contains(a) ==> self.index.contains(a)
        &&& forall|a: u64| #[trigger] self.blocked.contains(a) ==> self.index.contains(a)
        &&& forall|a: u64|
            #[trigger] self.allowed_until.contains_key(a) ==> self.index.contains(a)
        &&& forall|a: u64|
            #[trigger] self.blocked_until.contains_key(a) ==> self.index.contains(a)
    }

    /// Whether a block on `a` is in force at time `now`.
    pub open spec fn block_active(self, a: u64, now: u64) -> bool {
        self.blocked.contains(a) && !(self.blocked_until.contains_key(a) && now
            >= self.blocked_until[a])
    }

    /// The `is_allowed` precedence rules.
    pub open spec fn allowed_at(self, a: u64, now: u64) -> bool {
        &&& !self.block_active(a, now)
        &&& self.allowed.contains(a)
        &&& self.allowed_until.contains_key(a) ==> now < self.allowed_until[a]
    }

    /// `is_blocked`.
    pub open spec fn is_blocked_view(self, a: u64) -> bool {
        self.blocked.contains(a)
    }

    /// The allowlist part of the precedence rules, ignoring any block.
    pub open spec fn unblocked_allowed_at(self, a: u64, now: u64) -> bool {
        &&& self.allowed.contains(a)
        &&& self.allowed_until.contains_key(a) ==> now < self.allowed_until[a]
    }

    /// The coarse state reported by `address_status` and the snapshots: a
    /// block in force reads `Blocked`, a block whose lift time has passed
    /// reads `Expired`; otherwise an address off the allowlist reads
    /// `Blocked` and a time-bound allow reads `Expired` from its expiry on.
    pub open spec fn state_of(self, a: u64, now: u64) -> AddressState {
        if self.block_active(a, now) {
            AddressState::Blocked
        } else if self.blocked.contains(a) {
            AddressState::Expired
        } else if !self.allowed.contains(a) {
            AddressState::Blocked
        } else if self.allowed_until.contains_key(a) && now >= self.allowed_until[a] {
            AddressState::Expired
        } else {
            AddressState::Allowed
        }
    }

    pub open spec fn is_admin(self, a: u64) -> bool {
        self.admin == Some(a)
    }

    /// Whether the last call of a bulk entrypoint, recorded in `last`, lets
    /// `admin` call it again at `now`.
    pub open spec fn cooldown_over(last: Map<u64, u64>, admin: u64, now: u64) -> bool {
        !last.contains_key(admin) || now >= sat_add(last[admin], BULK_OP_COOLDOWN_SECS)
    }

    /// The state after allowing `a` permanently (without the index cap check).
    pub open spec fn allow_one(self, a: u64) -> ComplianceView {
        ComplianceView {
            allowed: self.allowed.insert(a),
            allowed_until: self.allowed_until.remove(a),
            allow_count: if self.allowed.contains(a) {
                self.allow_count
            } else {
                (self.allow_count + 1) as u64
            },
            index: track(self.index, a),
            ..self
        }
    }

    /// Allows each address of `s` in turn.
    pub open spec fn allow_all(self, s: Seq<u64>) -> ComplianceView
        decreases s.len(),
    {
        if s.len() == 0 {
            self
        } else {
            self.allow_all(s.drop_last()).allow_one(s.last())
        }
    }

    /// The state after `by` blocks `a` (without the index cap check).
    pub open spec fn block_one(self, a: u64, by: u64) -> ComplianceView {
        ComplianceView {
            blocked: self.blocked.insert(a),
            placer: self.placer.insert(a, by),
            index: track(self.index, a),
            ..self
        }
    }

    /// `by` blocks each address of `s` in turn.
    pub open spec fn block_all(self, s: Seq<u64>, by: u64) -> ComplianceView
        decreases s.len(),
    {
        if s.len() == 0 {
            self
        } else {
            self.block_all(s.drop_last(), by).block_one(s.last(), by)
        }
    }

    /// `initialize`.
    pub open spec fn initialize(self, admin: u64) -> Result<ComplianceView, ContractError> {
        if self.admin is Some {
            Err(ContractError::AlreadyInitialized)
        } else {
            Ok(ComplianceView { admin: Some(admin), paused: false, schema_version: Some(1), ..self })
        }
    }

    /// `transfer_admin`: the admin nominates a successor; a later
    /// nomination supersedes an earlier one.
    pub open spec fn transfer_admin(self, admin: u64, new_admin: u64) -> Result<
        ComplianceView,
        ContractError,
    > {
        if !self.is_admin(admin) {
            Err(ContractError::Unauthorized)
        } else {
            Ok(ComplianceView { pending_admin: Some(new_admin), ..self })
        }
    }

    /// `accept_admin`: the nominee takes over and the nomination is cleared.
    pub open spec fn accept_admin(self, new_admin: u64) -> Result<ComplianceView, ContractError> {
        if self.pending_admin != Some(new_admin) {
            Err(ContractError::Unauthorized)
        } else {
            Ok(ComplianceView { admin: Some(new_admin), pending_admin: None, ..self })
        }
    }

    /// `allow_address`.
    pub open spec fn allow_address(self, admin: u64, a: u64) -> Result<
        ComplianceView,
        ContractError,
    > {
        if !self.is_admin(admin) {
            Err(ContractError::Unauthorized)
        } else if self.paused {
            Err(ContractError::ContractPaused)
        } else if !can_track(self.index, a) {
            Err(ContractError::AddressIndexFull)
        } else {
            Ok(self.allow_one(a))
        }
    }

    /// `allow_address_with_tier`.
    pub open spec fn allow_address_with_tier(self, admin: u64, a: u64, tier: u32) -> Result<
        ComplianceView,
        ContractError,
    > {
        if !self.is_admin(admin) {
            Err(ContractError::Unauthorized)
        } else if self.paused {
            Err(ContractError::ContractPaused)
        } else if !can_track(self.index, a) {
            Err(ContractError::AddressIndexFull)
        } else {
            Ok(
                ComplianceView {
                    allowed: self.allowed.insert(a),
                    allowed_until: self.allowed_until.remove(a),
                    tier: self.tier.insert(a, tier),
                    index: track(self.index, a),
                    ..self
                },
            )
        }
    }

    /// `allow_address_until`.
    pub open spec fn allow_address_until(self, admin: u64, a: u64, expires_at: u64) -> Result<
        ComplianceView,
        ContractError,
    > {
        if !self.is_admin(admin) {
            Err(ContractError::Unauthorized)
        } else if self.paused {
            Err(ContractError::ContractPaused)
        } else if !can_track(self.index, a) {
            Err(ContractError::AddressIndexFull)
        } else {
            Ok(
                ComplianceView {
                    allowed: self.allowed.insert(a),
                    allowed_until: self.allowed_until.insert(a, expires_at),
                    index: track(self.index, a),
                    ..self
                },
            )
        }
    }

    /// `revoke_allow`.
    pub open spec fn revoke_allow(self, admin: u64, a: u64) -> Result<
        ComplianceView,
        ContractError,
    > {
        if !self.is_admin(admin) {
            Err(ContractError::Unauthorized)
        } else if self.paused {
            Err(ContractError::ContractPaused)
        } else if !can_track(self.index, a) {
            Err(ContractError::AddressIndexFull)
        } else {
            Ok(
                ComplianceView {
                    allowed: self.allowed.remove(a),
                    allowed_until: self.allowed_until.remove(a),
                    index: track(self.index, a),
                    ..self
                },
            )
        }
    }

    /// Who may block `a`: the admin always; the operator an address that is
    /// not blocked or whose block it placed itself, while a block placed by
    /// anyone else is refused with `OperatorCannotClearAdminBlock`, so the
    /// operator cannot take over, reword or time-limit it.
    pub open spec fn block_auth_error(self, caller: u64, a: u64) -> Option<ContractError> {
        if self.is_admin(caller) {
            None
        } else if self.operator == Some(caller) {
            if self.blocked.contains(a) && !self.operator_placed(caller, a) {
                Some(ContractError::OperatorCannotClearAdminBlock)
            } else {
                None
            }
        } else {
            Some(ContractError::Unauthorized)
        }
    }

    /// `block_address`: the admin or the operator blocks `a`, and is
    /// recorded as the block's placer.
    pub open spec fn block_address(self, caller: u64, a: u64, reason: Option<Seq<u8>>) -> Result<
        ComplianceView,
        ContractError,
    > {
        if self.block_auth_error(caller, a) is Some {
            Err(self.block_auth_error(caller, a).unwrap())
        } else if !can_track(self.index, a) {
            Err(ContractError::AddressIndexFull)
        } else {
            Ok(
                ComplianceView {
                    blocked: self.blocked.insert(a),
                    block_reason: with_reason(self.block_reason, a, reason),
                    placer: self.placer.insert(a, caller),
                    index: track(self.index, a),
                    ..self
                },
            )
        }
    }

    /// `block_address_until`: as `block_address`, with a lift time.
    pub open spec fn block_address_until(
        self,
        caller: u64,
        a: u64,
        unblock_at: u64,
        reason: Option<Seq<u8>>,
    ) -> Result<ComplianceView, ContractError> {
        if self.block_auth_error(caller, a) is Some {
            Err(self.block_auth_error(caller, a).unwrap())
        } else if !can_track(self.index, a) {
            Err(ContractError::AddressIndexFull)
        } else {
            Ok(
                ComplianceView {
                    blocked: self.blocked.insert(a),
                    blocked_until: self.blocked_until.insert(a, unblock_at),
                    block_reason: with_reason(self.block_reason, a, reason),
                    placer: self.placer.insert(a, caller),
                    index: track(self.index, a),
                    ..self
                },
            )
        }
    }

    /// Whether `caller` is the operator and placed the block on `a`.
    pub open spec fn operator_placed(self, caller: u64, a: u64) -> bool {
        &&& self.operator == Some(caller)
        &&& self.blocked.contains(a)
        &&& self.placer.contains_key(a)
        &&& self.placer[a] == caller
    }

    /// Who may lift the block on `a`: the admin always; the operator only a
    /// block it placed itself, and a block placed by anyone else is refused
    /// with `OperatorCannotClearAdminBlock`.
    pub open spec fn clear_auth_error(self, caller: u64, a: u64) -> Option<ContractError> {
        if self.is_admin(caller) || self.operator_placed(caller, a) {
            None
        } else if self.operator == Some(caller) && self.blocked.contains(a) {
            Some(ContractError::OperatorCannotClearAdminBlock)
        } else {
            Some(ContractError::Unauthorized)
        }
    }

    /// `clear_address`: lifts any block, drops its placer and allows the
    /// address, keeping any `allowed_until` expiry in place.
    pub open spec fn clear_address(self, caller: u64, a: u64) -> Result<
        ComplianceView,
        ContractError,
    > {
        if self.clear_auth_error(caller, a) is Some {
            Err(self.clear_auth_error(caller, a).unwrap())
        } else if !can_track(self.index, a) {
            Err(ContractError::AddressIndexFull)
        } else {
            Ok(
                ComplianceView {
                    blocked: self.blocked.remove(a),
                    blocked_until: self.blocked_until.remove(a),
                    placer: self.placer.remove(a),
                    allowed: self.allowed.insert(a),
                    block_count: if self.blocked.contains(a) {
                        sat_dec(self.block_count)
                    } else {
                        self.block_count
                    },
                    allow_count: if self.allowed.contains(a) {
                        self.allow_count
                    } else {
                        (self.allow_count + 1) as u64
                    },
                    index: track(self.index, a),
                    ..self
                },
            )
        }
    }

    /// `bulk_allow_addresses`.
    pub open spec fn bulk_allow_addresses(self, admin: u64, s: Seq<u64>, now: u64) -> Result<
        ComplianceView,
        ContractError,
    > {
        if !self.is_admin(admin) {
            Err(ContractError::Unauthorized)
        } else if self.paused {
            Err(ContractError::ContractPaused)
        } else if !Self::cooldown_over(self.last_bulk_allow, admin, now) {
            Err(ContractError::BulkOperationCooldown)
        } else if s.len() > MAX_BATCH_SIZE {
            Err(ContractError::BatchTooLarge)
        } else if track_all(self.index, s) is None {
            Err(ContractError::AddressIndexFull)
        } else {
            Ok(
                ComplianceView {
                    last_bulk_allow: self.last_bulk_allow.insert(admin, now),
                    ..self
                }.allow_all(s),
            )
        }
    }

    /// `bulk_block_addresses` (permitted while paused).
    pub open spec fn bulk_block_addresses(self, admin: u64, s: Seq<u64>, now: u64) -> Result<
        ComplianceView,
        ContractError,
    > {
        if !self.is_admin(admin) {
            Err(ContractError::Unauthorized)
        } else if !Self::cooldown_over(self.last_bulk_block, admin, now) {
            Err(ContractError::BulkOperationCooldown)
        } else if s.len() > MAX_BATCH_SIZE {
            Err(ContractError::BatchTooLarge)
        } else if track_all(self.index, s) is None {
            Err(ContractError::AddressIndexFull)
        } else {
            Ok(
                ComplianceView {
                    last_bulk_block: self.last_bulk_block.insert(admin, now),
                    ..self
                }.block_all(s, admin),
            )
        }
    }

    /// The effect of the expiry sweep on one address, and whether it lapsed.
    pub open spec fn sweep_one(self, a: u64, now: u64) -> (ComplianceView, bool) {
        if self.allowed.contains(a) && self.allowed_until.contains_key(a) && now
            >= self.allowed_until[a] {
            (
                ComplianceView {
                    allowed: self.allowed.remove(a),
                    allowed_until: self.allowed_until.remove(a),
                    allow_count: sat_dec(self.allow_count),
                    ..self
                },
                true,
            )
        } else {
            (self, false)
        }
    }

    /// Sweeps each address of `s` in turn; also returns the addresses whose
    /// allow lapsed, in order.
    pub open spec fn sweep_all(self, s: Seq<u64>, now: u64) -> (ComplianceView, Seq<u64>)
        decreases s.len(),
    {
        if s.len() == 0 {
            (self, Seq::empty())
        } else {
            let (v, swept) = self.sweep_all(s.drop_last(), now);
            let (v2, hit) = v.sweep_one(s.last(), now);
            (
                v2,
                if hit {
                    swept.push(s.last())
                } else {
                    swept
                },
            )
        }
    }

    /// `(address, state)` for the index entries at positions `from..to`.
    pub open spec fn snapshot(self, from: int, to: int, now: u64) -> Seq<(u64, AddressState)> {
        Seq::new(
            (to - from) as nat,
            |j: int| (self.index[from + j], self.state_of(self.index[from + j], now)),
        )
    }

    /// Whether `caller` may read `address_status`.
    pub open spec fn is_admin_or_operator(self, caller: u64) -> bool {
        self.admin == Some(caller) || self.operator == Some(caller)
    }
}

/// `m` with `reason` recorded for `a`, if there is one.
pub open spec fn with_reason(m: Map<u64, Seq<u8>>, a: u64, reason: Option<Seq<u8>>) -> Map<
    u64,
    Seq<u8>,
> {
    match reason {
        Some(r) => m.insert(a, r),
        None => m,
    }
}

/// The byte content of an optional byte string.
pub open spec fn opt_bytes(o: Option<Vec<u8>>) -> Option<Seq<u8>> {
    match o {
        Some(r) => Some(r@),
        None => None,
    }
}

/// How many distinct addresses of `s` are outside `allowed`: what allowing
/// every address of `s` adds to the allow count.
pub open spec fn newly_allowed(allowed: Set<u64>, s: Seq<u64>) -> nat
    decreases s.len(),
{
    if s.len() == 0 {
        0
    } else if allowed.contains(s.last()) || s.drop_last().contains(s.last()) {
        newly_allowed(allowed, s.drop_last())
    } else {
        newly_allowed(allowed, s.drop_last()) + 1
    }
}

/// A prefix of a batch adds no more to the allow count than the batch.
proof fn lemma_newly_allowed_prefix(allowed: Set<u64>, s: Seq<u64>, k: int)
    requires
        0 <= k <= s.len(),
    ensures
        newly_allowed(allowed, s.take(k)) <= newly_allowed(allowed, s),
    decreases s.len(),
{
    if k == s.len() {
        assert(s.take(k) =~= s);
    } else {
        assert(s.drop_last().take(k) =~= s.take(k));
        lemma_newly_allowed_prefix(allowed, s.drop_last(), k);
    }
}

/// Allowing every address of `s` allows exactly `s` on top of what was
/// allowed, and adds [`newly_allowed`] to the count while that fits.
proof fn lemma_allow_all_count(v: ComplianceView, s: Seq<u64>)
    requires
        v.allow_count + newly_allowed(v.allowed, s) <= u64::MAX,
    ensures
        forall|x: u64| #[trigger] v.allow_all(s).allowed.contains(x) <==> (v.allowed.contains(x)
            || s.contains(x)),
        v.allow_all(s).allow_count == v.allow_count + newly_allowed(v.allowed, s),
    decreases s.len(),
{
    if s.len() > 0 {
        let t = s.drop_last();
        lemma_allow_all_count(v, t);
        assert forall|x: u64| #[trigger] v.allow_all(s).allowed.contains(x) <==> (v.allowed.contains(x)
            || s.contains(x)) by {
            if t.contains(x) {
                let i = choose|i: int| 0 <= i < t.len() && t[i] == x;
                assert(s[i] == x);
            }
            if s.contains(x) {
                let i = choose|i: int| 0 <= i < s.len() && s[i] == x;
                if i < t.len() {
                    assert(t[i] == x);
                }
            }
            if x == s.last() {
                assert(s[s.len() - 1] == x);
            }
        }
    }
}

/// A prefix of a batch that fits under the index cap fits too.
proof fn lemma_track_all_prefix(index: Seq<u64>, s: Seq<u64>, k: int)
    requires
        0 <= k <= s.len(),
        track_all(index, s) is Some,
    ensures
        track_all(index, s.take(k)) is Some,
    decreases s.len(),
{
    if k == s.len() {
        assert(s.take(k) =~= s);
    } else {
        assert(s.drop_last().take(k) =~= s.take(k));
        lemma_track_all_prefix(index, s.drop_last(), k);
    }
}

/// Whether recording every address of `addrs` in turn fits under the cap,
/// for an index whose members are `indexed`.
fn index_has_room(index: &Vec<u64>, indexed: &HashSet<u64>, addrs: &Vec<u64>) -> (r: bool)
    requires
        forall|a: u64| #[trigger] indexed@.contains(a) <==> index@.contains(a),
    ensures
        r == track_all(index@, addrs@) is Some,
{
    let mut seen: HashSet<u64> = HashSet::new();
    let mut added: usize = 0;
    let ghost mut idx: Seq<u64> = index@;
    let mut k: usize = 0;
    while k < addrs.len()
        invariant
            k <= addrs.len(),
            track_all(index@, addrs@.take(k as int)) == Some(idx),
            idx.len() == index@.len() + added,
            added <= MAX_TRACKED_ADDRESSES,
            forall|a: u64| #[trigger]
                idx.contains(a) <==> (indexed@.contains(a) || seen@.contains(a)),
            forall|a: u64| #[trigger] indexed@.contains(a) <==> index@.contains(a),
        decreases addrs.len() - k,
    {
        let a = addrs[k];
        assert(addrs@.take(k + 1).drop_last() =~= addrs@.take(k as int));
        if !indexed.contains(&a) && !seen.contains(&a) {
            if index.len() >= MAX_TRACKED_ADDRESSES as usize || added >= MAX_TRACKED_ADDRESSES
                as usize - index.len() {
                proof {
                    if track_all(index@, addrs@) is Some {
                        lemma_track_all_prefix(index@, addrs@, k + 1);
                    }
                }
                return false;
            }
            proof {
                assert forall|b: u64| #[trigger]
                    idx.push(a).contains(b) <==> (indexed@.contains(b) || seen@.insert(
                        a,
                    ).contains(b)) by {
                    if idx.push(a).contains(b) {
                        let j = choose|j: int| 0 <= j < idx.push(a).len() && idx.push(a)[j] == b;
                        if j < idx.len() {
                            assert(idx[j] == b);
                        }
                    }
                    if idx.contains(b) {
                        let j = choose|j: int| 0 <= j < idx.len() && idx[j] == b;
                        assert(idx.push(a)[j] == b);
                    }
                    assert(idx.push(a)[idx.len() as int] == a);
                }
                idx = idx.push(a);
            }
            seen.insert(a);
            added = added + 1;
        }
        k = k + 1;
    }
    assert(addrs@.take(addrs@.len() as int) =~= addrs@);
    true
}

impl ComplianceContract {
    /// The lookup set holds exactly the addresses of the index.
    pub open spec fn inv(&self) -> bool {
        forall|a: u64| #[trigger]
            self.indexed@.contains(a) <==> self.address_index@.contains(a)
    }

    /// Storage of a contract that has not been initialized yet.
    pub fn new() -> (r: ComplianceContract)
        ensures
            r.inv(),
            r@ == (ComplianceView {
                admin: None,
                pending_admin: None,
                operator: None,
                paused: false,
                schema_version: None,
                allowed: Set::empty(),
                blocked: Set::empty(),
                allowed_until: Map::empty(),
                blocked_until: Map::empty(),
                block_reason: Map::empty(),
                placer: Map::empty(),
                tier: Map::empty(),
                index: Seq::empty(),
                allow_count: 0,
                block_count: 0,
                last_bulk_allow: Map::empty(),
                last_bulk_block: Map::empty(),
            }),
            r@.wf(),
    {
        let r = ComplianceContract {
            admin: None,
            pending_admin: None,
            operator: None,
            paused: false,
            schema_version: None,
            allowed: HashSet::new(),
            blocked: HashSet::new(),
            allowed_until: HashMap::new(),
            blocked_until: HashMap::new(),
            block_reason: HashMap::new(),
            block_placer: HashMap::new(),
            tier: HashMap::new(),
            address_index: Vec::new(),
            indexed: HashSet::new(),
            allow_count: 0,
            block_count: 0,
            last_bulk_allow: HashMap::new(),
            last_bulk_block: HashMap::new(),
        };
        assert(r@.block_reason =~= Map::empty());
        r
    }

    /// Initializes the contract with an admin address.
    pub fn initialize(&mut self, admin: u64) -> (r: Result<(), ContractError>)
        requires
            old(self).inv(),
        ensures
            final(self).inv(),
            match old(self)@.initialize(admin) {
                Ok(v) => r is Ok && final(self)@ == v,
                Err(e) => r == Err::<(), ContractError>(e) && final(self)@ == old(self)@,
            },
    {
        if self.admin.is_some() {
            return Err(ContractError::AlreadyInitialized);
        }
        self.admin = Some(admin);
        self.paused = false;
        self.schema_version = Some(1);
        Ok(())
    }

    /// Whether `address` may transact at time `now`.
    pub fn is_allowed(&self, address: u64, now: u64) -> (r: bool)
        ensures
            r == self@.allowed_at(address, now),
    {
        if self.blocked.contains(&address) {
            match self.blocked_until.get(&address) {
                Some(unblock_at) => {
                    if now < *unblock_at {
                        return false;
                    }
                },
                None => {
                    return false;
                },
            }
        }
        if !self.allowed.contains(&address) {
            return false;
        }
        match self.allowed_until.get(&address) {
            Some(expires_at) => now < *expires_at,
            None => true,
        }
    }

    /// Whether `address` is explicitly blocked.
    pub fn is_blocked(&self, address: u64) -> (r: bool)
        ensures
            r == self@.blocked.contains(address),
    {
        self.blocked.contains(&address)
    }

    fn require_admin(&self, admin: u64) -> (r: Result<(), ContractError>)
        requires
            self@.admin is Some,
        ensures
            r is Ok <==> self@.is_admin(admin),
            r is Err ==> r == Err::<(), ContractError>(ContractError::Unauthorized),
    {
        match self.admin {
            Some(stored) => if stored == admin {
                Ok(())
            } else {
                Err(ContractError::Unauthorized)
            },
            None => Err(ContractError::Unauthorized),
        }
    }

    fn check_block_permission(&self, caller: u64, address: u64) -> (r: Result<(), ContractError>)
        ensures
            r == match self@.block_auth_error(caller, address) {
                None => Ok::<(), ContractError>(()),
                Some(e) => Err(e),
            },
    {
        let is_admin = match self.admin {
            Some(a) => a == caller,
            None => false,
        };
        if is_admin {
            return Ok(());
        }
        let is_operator = match self.operator {
            Some(o) => o == caller,
            None => false,
        };
        if !is_operator {
            return Err(ContractError::Unauthorized);
        }
        let own = match self.block_placer.get(&address) {
            Some(p) => *p == caller,
            None => false,
        };
        if self.blocked.contains(&address) && !own {
            Err(ContractError::OperatorCannotClearAdminBlock)
        } else {
            Ok(())
        }
    }

    /// Whether recording `a` fits under the index cap.
    fn can_track_address(&self, a: u64) -> (r: bool)
        requires
            self.inv(),
        ensures
            r == can_track(self@.index, a),
    {
        self.indexed.contains(&a) || self.address_index.len() < MAX_TRACKED_ADDRESSES as usize
    }

    /// Appends `a` to the index unless it is already there.
    fn track_address(&mut self, a: u64)
        requires
            old(self).inv(),
        ensures
            final(self).inv(),
            final(self)@ == (ComplianceView { index: track(old(self)@.index, a), ..old(self)@ }),
    {
        if !self.indexed.contains(&a) {
            self.address_index.push(a);
            self.indexed.insert(a);
            proof {
                let old_index = old(self)@.index;
                assert forall|b: u64| #[trigger]
                    self.indexed@.contains(b) <==> self.address_index@.contains(b) by {
                    if self.address_index@.contains(b) {
                        let j = choose|j: int|
                            0 <= j < self.address_index@.len() && self.address_index@[j] == b;
                        if j < old_index.len() {
                            assert(old_index[j] == b);
                        }
                    }
                    if old_index.contains(b) {
                        let j = choose|j: int| 0 <= j < old_index.len() && old_index[j] == b;
                        assert(self.address_index@[j] == b);
                    }
                    assert(self.address_index@[old_index.len() as int] == a);
                }
            }
        }
    }

    /// Applies a permanent allow to `a` (index cap already checked).
    fn allow_one(&mut self, a: u64)
        requires
            old(self).inv(),
            old(self)@.allow_count < u64::MAX || old(self)@.allowed.contains(a),
        ensures
            final(self).inv(),
            final(self)@ == old(self)@.allow_one(a),
    {
        let was_allowed = self.allowed.contains(&a);
        self.allowed.insert(a);
        self.allowed_until.remove(&a);
        if !was_allowed {
            self.allow_count = self.allow_count + 1;
        }
        self.track_address(a);
    }

    /// Permanently allows `address`, removing any expiry.
    pub fn allow_address(&mut self, admin: u64, address: u64) -> (r: Result<(), ContractError>)
        requires
            old(self).inv(),
            old(self)@.admin is Some,
            old(self)@.allow_count < u64::MAX || old(self)@.allowed.contains(address),
        ensures
            final(self).inv(),
            match old(self)@.allow_address(admin, address) {
                Ok(v) => r is Ok && final(self)@ == v,
                Err(e) => r == Err::<(), ContractError>(e) && final(self)@ == old(self)@,
            },
    {
        self.require_admin(admin)?;
        if self.paused {
            return Err(ContractError::ContractPaused);
        }
        if !self.can_track_address(address) {
            return Err(ContractError::AddressIndexFull);
        }
        self.allow_one(address);
        Ok(())
    }
    /// Allows `address` and records its compliance tier (tier `0` is basic KYC).
    pub fn allow_address_with_tier(&mut self, admin: u64, address: u64, tier: u32) -> (r: Result<
        (),
        ContractError,
    >)
        requires
            old(self).inv(),
            old(self)@.admin is Some,
        ensures
            final(self).inv(),
            match old(self)@.allow_address_with_tier(admin, address, tier) {
                Ok(v) => r is Ok && final(self)@ == v,
                Err(e) => r == Err::<(), ContractError>(e) && final(self)@ == old(self)@,
            },
    {
        self.require_admin(admin)?;
        if self.paused {
            return Err(ContractError::ContractPaused);
        }
        if !self.can_track_address(address) {
            return Err(ContractError::AddressIndexFull);
        }
        self.allowed.insert(address);
        self.allowed_until.remove(&address);
        self.tier.insert(address, tier);
        self.track_address(address);
        Ok(())
    }

    /// The recorded compliance tier of `address`, `0` when none was set.
    pub fn get_address_tier(&self, address: u64) -> (r: u32)
        ensures
            r == (if self@.tier.contains_key(address) {
                self@.tier[address]
            } else {
                0
            }),
    {
        match self.tier.get(&address) {
            Some(t) => *t,
            None => 0,
        }
    }

    /// Allows `address` until `expires_at`; `is_allowed` holds strictly
    /// before that time. An expiry in the past is accepted.
    pub fn allow_address_until(&mut self, admin: u64, address: u64, expires_at: u64) -> (r:
        Result<(), ContractError>)
        requires
            old(self).inv(),
            old(self)@.admin is Some,
        ensures
            final(self).inv(),
            match old(self)@.allow_address_until(admin, address, expires_at) {
                Ok(v) => r is Ok && final(self)@ == v,
                Err(e) => r == Err::<(), ContractError>(e) && final(self)@ == old(self)@,
            },
    {
        self.require_admin(admin)?;
        if self.paused {
            return Err(ContractError::ContractPaused);
        }
        if !self.can_track_address(address) {
            return Err(ContractError::AddressIndexFull);
        }
        self.allowed.insert(address);
        self.allowed_until.insert(address, expires_at);
        self.track_address(address);
        Ok(())
    }

    /// Removes `address` from the allowlist without blocking it.
    pub fn revoke_allow(&mut self, admin: u64, address: u64) -> (r: Result<(), ContractError>)
        requires
            old(self).inv(),
            old(self)@.admin is Some,
        ensures
            final(self).inv(),
            match old(self)@.revoke_allow(admin, address) {
                Ok(v) => r is Ok && final(self)@ == v,
                Err(e) => r == Err::<(), ContractError>(e) && final(self)@ == old(self)@,
            },
    {
        self.require_admin(admin)?;
        if self.paused {
            return Err(ContractError::ContractPaused);
        }
        if !self.can_track_address(address) {
            return Err(ContractError::AddressIndexFull);
        }
        self.allowed.remove(&address);
        self.allowed_until.remove(&address);
        self.track_address(address);
        Ok(())
    }

    /// Records `reason` for `address`, if there is one.
    fn set_reason(&mut self, address: u64, reason: Option<Vec<u8>>)
        requires
            old(self).inv(),
        ensures
            final(self).inv(),
            final(self)@ == (ComplianceView {
                block_reason: with_reason(old(self)@.block_reason, address, opt_bytes(reason)),
                ..old(self)@
            }),
    {
        match reason {
            Some(r) => {
                self.block_reason.insert(address, r);
                assert(self@.block_reason =~= with_reason(
                    old(self)@.block_reason,
                    address,
                    opt_bytes(reason),
                ));
            },
            None => {},
        }
    }

    /// Blocks `address`, recording `reason` if given and the caller as the
    /// block's placer. The admin may call it, and the operator on an address
    /// that is not blocked or that it blocked itself; permitted while paused.
    pub fn block_address(&mut self, caller: u64, address: u64, reason: Option<Vec<u8>>) -> (r:
        Result<(), ContractError>)
        requires
            old(self).inv(),
            old(self)@.admin is Some,
        ensures
            final(self).inv(),
            match old(self)@.block_address(caller, address, opt_bytes(reason)) {
                Ok(v) => r is Ok && final(self)@ == v,
                Err(e) => r == Err::<(), ContractError>(e) && final(self)@ == old(self)@,
            },
    {
        self.check_block_permission(caller, address)?;
        if !self.can_track_address(address) {
            return Err(ContractError::AddressIndexFull);
        }
        self.blocked.insert(address);
        self.set_reason(address, reason);
        self.block_placer.insert(address, caller);
        self.track_address(address);
        Ok(())
    }

    /// Blocks `address` until `unblock_at`, recording `reason` if given and
    /// the caller as the block's placer. Callers as for `block_address`;
    /// permitted while paused.
    pub fn block_address_until(
        &mut self,
        caller: u64,
        address: u64,
        unblock_at: u64,
        reason: Option<Vec<u8>>,
    ) -> (r: Result<(), ContractError>)
        requires
            old(self).inv(),
            old(self)@.admin is Some,
        ensures
            final(self).inv(),
            match old(self)@.block_address_until(caller, address, unblock_at, opt_bytes(reason)) {
                Ok(v) => r is Ok && final(self)@ == v,
                Err(e) => r == Err::<(), ContractError>(e) && final(self)@ == old(self)@,
            },
    {
        self.check_block_permission(caller, address)?;
        if !self.can_track_address(address) {
            return Err(ContractError::AddressIndexFull);
        }
        self.blocked.insert(address);
        self.blocked_until.insert(address, unblock_at);
        self.set_reason(address, reason);
        self.block_placer.insert(address, caller);
        self.track_address(address);
        Ok(())
    }

    /// Who placed the block on `address`, if a block placed through
    /// `block_address`, `block_address_until` or the bulk block is in place.
    pub fn get_block_placer(&self, address: u64) -> (r: Option<u64>)
        ensures
            r == (if self@.placer.contains_key(address) {
                Some(self@.placer[address])
            } else {
                None::<u64>
            }),
    {
        match self.block_placer.get(&address) {
            Some(p) => Some(*p),
            None => None,
        }
    }

    /// The reason recorded when `address` was blocked, if any.
    pub fn get_block_reason(&self, address: u64) -> (r: Option<Vec<u8>>)
        ensures
            opt_bytes(r) == (if self@.block_reason.contains_key(address) {
                Some(self@.block_reason[address])
            } else {
                None::<Seq<u8>>
            }),
    {
        match self.block_reason.get(&address) {
            Some(b) => Some(copy_bytes(b)),
            None => None,
        }
    }

    /// The schema version written at initialization (`1` when unset).
    pub fn get_schema_version(&self) -> (r: u32)
        ensures
            r == (match self@.schema_version {
                Some(v) => v,
                None => 1,
            }),
    {
        match self.schema_version {
            Some(v) => v,
            None => 1,
        }
    }

    /// Starts a two-step admin transfer; a later call supersedes an earlier
    /// nomination. Permitted while paused.
    pub fn transfer_admin(&mut self, admin: u64, new_admin: u64) -> (r: Result<(), ContractError>)
        requires
            old(self).inv(),
            old(self)@.admin is Some,
        ensures
            final(self).inv(),
            match old(self)@.transfer_admin(admin, new_admin) {
                Ok(v) => r is Ok && final(self)@ == v,
                Err(e) => r == Err::<(), ContractError>(e) && final(self)@ == old(self)@,
            },
    {
        self.require_admin(admin)?;
        self.pending_admin = Some(new_admin);
        Ok(())
    }

    /// Completes an admin transfer; must be called by the pending admin.
    pub fn accept_admin(&mut self, new_admin: u64) -> (r: Result<(), ContractError>)
        requires
            old(self).inv(),
            old(self)@.pending_admin is Some,
        ensures
            final(self).inv(),
            match old(self)@.accept_admin(new_admin) {
                Ok(v) => r is Ok && final(self)@ == v,
                Err(e) => r == Err::<(), ContractError>(e) && final(self)@ == old(self)@,
            },
    {
        match self.pending_admin {
            Some(p) => {
                if p != new_admin {
                    return Err(ContractError::Unauthorized);
                }
            },
            None => {
                return Err(ContractError::Unauthorized);
            },
        }
        self.admin = Some(new_admin);
        self.pending_admin = None;
        Ok(())
    }

    /// Lifts any block on `address`, drops its placer and allows the
    /// address, keeping any existing `allowed_until` expiry. The admin may
    /// lift any block; the operator only one it placed itself. Permitted
    /// while paused.
    pub fn clear_address(&mut self, caller: u64, address: u64) -> (r: Result<(), ContractError>)
        requires
            old(self).inv(),
            old(self)@.admin is Some,
            old(self)@.allow_count < u64::MAX || old(self)@.allowed.contains(address),
        ensures
            final(self).inv(),
            match old(self)@.clear_address(caller, address) {
                Ok(v) => r is Ok && final(self)@ == v,
                Err(e) => r == Err::<(), ContractError>(e) && final(self)@ == old(self)@,
            },
    {
        let is_admin = match self.admin {
            Some(a) => a == caller,
            None => false,
        };
        if !is_admin {
            let is_operator = match self.operator {
                Some(o) => o == caller,
                None => false,
            };
            let blocked = self.blocked.contains(&address);
            let own = match self.block_placer.get(&address) {
                Some(p) => *p == caller,
                None => false,
            };
            if !(is_operator && blocked && own) {
                if is_operator && blocked {
                    return Err(ContractError::OperatorCannotClearAdminBlock);
                }
                return Err(ContractError::Unauthorized);
            }
        }
        if !self.can_track_address(address) {
            return Err(ContractError::AddressIndexFull);
        }
        let was_blocked = self.blocked.contains(&address);
        let was_allowed = self.allowed.contains(&address);
        self.blocked.remove(&address);
        self.blocked_until.remove(&address);
        self.block_placer.remove(&address);
        self.allowed.insert(address);
        if was_blocked {
            self.block_count = self.block_count.saturating_sub(1);
        }
        if !was_allowed {
            self.allow_count = self.allow_count + 1;
        }
        self.track_address(address);
        Ok(())
    }

    /// Sets the circuit-breaker flag.
    pub fn pause(&mut self, admin: u64) -> (r: Result<(), ContractError>)
        requires
            old(self).inv(),
            old(self)@.admin is Some,
        ensures
            final(self).inv(),
            old(self)@.is_admin(admin) ==> r is Ok && final(self)@ == (ComplianceView {
                paused: true,
                ..old(self)@
            }),
            !old(self)@.is_admin(admin) ==> r == Err::<(), ContractError>(
                ContractError::Unauthorized,
            ) && final(self)@ == old(self)@,
    {
        self.require_admin(admin)?;
        self.paused = true;
        Ok(())
    }

    /// Clears the circuit-breaker flag.
    pub fn unpause(&mut self, admin: u64) -> (r: Result<(), ContractError>)
        requires
            old(self).inv(),
            old(self)@.admin is Some,
        ensures
            final(self).inv(),
            old(self)@.is_admin(admin) ==> r is Ok && final(self)@ == (ComplianceView {
                paused: false,
                ..old(self)@
            }),
            !old(self)@.is_admin(admin) ==> r == Err::<(), ContractError>(
                ContractError::Unauthorized,
            ) && final(self)@ == old(self)@,
    {
        self.require_admin(admin)?;
        self.paused = false;
        Ok(())
    }

    /// Assigns the operator role. Permitted while paused.
    pub fn set_operator(&mut self, admin: u64, operator: u64) -> (r: Result<(), ContractError>)
        requires
            old(self).inv(),
            old(self)@.admin is Some,
        ensures
            final(self).inv(),
            old(self)@.is_admin(admin) ==> r is Ok && final(self)@ == (ComplianceView {
                operator: Some(operator),
                ..old(self)@
            }),
            !old(self)@.is_admin(admin) ==> r == Err::<(), ContractError>(
                ContractError::Unauthorized,
            ) && final(self)@ == old(self)@,
    {
        self.require_admin(admin)?;
        self.operator = Some(operator);
        Ok(())
    }

    /// The expiry of a time-bound allow on `address`, if there is one.
    pub fn get_allow_expiry(&self, address: u64) -> (r: Option<u64>)
        ensures
            r == (if self@.allowed_until.contains_key(address) {
                Some(self@.allowed_until[address])
            } else {
                None::<u64>
            }),
    {
        match self.allowed_until.get(&address) {
            Some(e) => Some(*e),
            None => None,
        }
    }

    /// The coarse state of `address` at `now`, without any authorization.
    fn address_state(&self, address: u64, now: u64) -> (r: AddressState)
        ensures
            r == self@.state_of(address, now),
    {
        if self.blocked.contains(&address) {
            return match self.blocked_until.get(&address) {
                Some(unblock_at) => if now < *unblock_at {
                    AddressState::Blocked
                } else {
                    AddressState::Expired
                },
                None => AddressState::Blocked,
            };
        }
        if !self.allowed.contains(&address) {
            return AddressState::Blocked;
        }
        match self.allowed_until.get(&address) {
            Some(expires_at) => if now < *expires_at {
                AddressState::Allowed
            } else {
                AddressState::Expired
            },
            None => AddressState::Allowed,
        }
    }

    /// The compliance state of `address`; readable by the admin or the operator.
    pub fn address_status(&self, caller: u64, address: u64, now: u64) -> (r: Result<
        AddressState,
        ContractError,
    >)
        requires
            self@.admin is Some,
        ensures
            self@.is_admin_or_operator(caller) ==> r == Ok::<AddressState, ContractError>(
                self@.state_of(address, now),
            ),
            !self@.is_admin_or_operator(caller) ==> r == Err::<AddressState, ContractError>(
                ContractError::Unauthorized,
            ),
    {
        let authorized = match self.admin {
            Some(a) => a == caller,
            None => false,
        } || match self.operator {
            Some(o) => o == caller,
            None => false,
        };
        if !authorized {
            return Err(ContractError::Unauthorized);
        }
        Ok(self.address_state(address, now))
    }

    /// `is_allowed` for each address, in order.
    pub fn bulk_check_addresses(&self, addresses: &Vec<u64>, now: u64) -> (r: Vec<bool>)
        ensures
            r@.len() == addresses@.len(),
            forall|i: int|
                0 <= i < addresses@.len() ==> r@[i] == self@.allowed_at(addresses@[i], now),
    {
        let mut out: Vec<bool> = Vec::new();
        let mut i: usize = 0;
        while i < addresses.len()
            invariant
                i <= addresses.len(),
                out@.len() == i,
                forall|j: int| 0 <= j < i ==> out@[j] == self@.allowed_at(addresses@[j], now),
            decreases addresses.len() - i,
        {
            out.push(self.is_allowed(addresses[i], now));
            i = i + 1;
        }
        out
    }

    /// Enforces the bulk cooldown recorded in `last` for `admin`.
    fn cooldown_over(last: &HashMap<u64, u64>, admin: u64, now: u64) -> (r: bool)
        ensures
            r == ComplianceView::cooldown_over(last@, admin, now),
    {
        match last.get(&admin) {
            Some(t) => now >= t.saturating_add(BULK_OP_COOLDOWN_SECS),
            None => true,
        }
    }

    /// Allows every address of the batch permanently. Rejected wholesale when
    /// the admin's previous bulk allow was under `BULK_OP_COOLDOWN_SECS` ago,
    /// when the batch exceeds `MAX_BATCH_SIZE`, or when it would grow the
    /// address index past its cap.
    pub fn bulk_allow_addresses(&mut self, admin: u64, addresses: &Vec<u64>, now: u64) -> (r:
        Result<(), ContractError>)
        requires
            old(self).inv(),
            old(self)@.admin is Some,
            old(self)@.allow_count + newly_allowed(old(self)@.allowed, addresses@) <= u64::MAX,
        ensures
            final(self).inv(),
            match old(self)@.bulk_allow_addresses(admin, addresses@, now) {
                Ok(v) => r is Ok && final(self)@ == v,
                Err(e) => r == Err::<(), ContractError>(e) && final(self)@ == old(self)@,
            },
    {
        self.require_admin(admin)?;
        if self.paused {
            return Err(ContractError::ContractPaused);
        }
        if !Self::cooldown_over(&self.last_bulk_allow, admin, now) {
            return Err(ContractError::BulkOperationCooldown);
        }
        if addresses.len() > MAX_BATCH_SIZE as usize {
            return Err(ContractError::BatchTooLarge);
        }
        if !index_has_room(&self.address_index, &self.indexed, addresses) {
            return Err(ContractError::AddressIndexFull);
        }
        self.last_bulk_allow.insert(admin, now);
        let ghost v0 = self@;
        let mut k: usize = 0;
        while k < addresses.len()
            invariant
                k <= addresses.len(),
                self@ == v0.allow_all(addresses@.take(k as int)),
                self.inv(),
                v0.allow_count + newly_allowed(v0.allowed, addresses@) <= u64::MAX,
            decreases addresses.len() - k,
        {
            assert(addresses@.take(k + 1).drop_last() =~= addresses@.take(k as int));
            proof {
                lemma_newly_allowed_prefix(v0.allowed, addresses@, k + 1);
                lemma_newly_allowed_prefix(v0.allowed, addresses@, k as int);
                lemma_allow_all_count(v0, addresses@.take(k as int));
                assert(addresses@.take(k + 1).last() == addresses@[k as int]);
            }
            self.allow_one(addresses[k]);
            k = k + 1;
        }
        assert(addresses@.take(addresses@.len() as int) =~= addresses@);
        Ok(())
    }

    /// Blocks every address of the batch. Permitted while paused; rejected
    /// wholesale on cooldown, oversize, or a full address index.
    pub fn bulk_block_addresses(&mut self, admin: u64, addresses: &Vec<u64>, now: u64) -> (r:
        Result<(), ContractError>)
        requires
            old(self).inv(),
            old(self)@.admin is Some,
        ensures
            final(self).inv(),
            match old(self)@.bulk_block_addresses(admin, addresses@, now) {
                Ok(v) => r is Ok && final(self)@ == v,
                Err(e) => r == Err::<(), ContractError>(e) && final(self)@ == old(self)@,
            },
    {
        self.require_admin(admin)?;
        if !Self::cooldown_over(&self.last_bulk_block, admin, now) {
            return Err(ContractError::BulkOperationCooldown);
        }
        if addresses.len() > MAX_BATCH_SIZE as usize {
            return Err(ContractError::BatchTooLarge);
        }
        if !index_has_room(&self.address_index, &self.indexed, addresses) {
            return Err(ContractError::AddressIndexFull);
        }
        self.last_bulk_block.insert(admin, now);
        let ghost v0 = self@;
        let mut k: usize = 0;
        while k < addresses.len()
            invariant
                k <= addresses.len(),
                self@ == v0.block_all(addresses@.take(k as int), admin),
                self.inv(),
            decreases addresses.len() - k,
        {
            assert(addresses@.take(k + 1).drop_last() =~= addresses@.take(k as int));
            let a = addresses[k];
            self.blocked.insert(a);
            self.block_placer.insert(a, admin);
            self.track_address(a);
            k = k + 1;
        }
        assert(addresses@.take(addresses@.len() as int) =~= addresses@);
        Ok(())
    }

    /// Clears every indexed time-bound allow whose expiry has passed at `now`
    /// and returns the addresses swept, in index order.
    pub fn sweep_expired(&mut self, admin: u64, now: u64) -> (r: Result<Vec<u64>, ContractError>)
        requires
            old(self).inv(),
            old(self)@.admin is Some,
        ensures
            final(self).inv(),
            old(self)@.is_admin(admin) ==> r is Ok && final(self)@ == old(self)@.sweep_all(
                old(self)@.index,
                now,
            ).0 && r->Ok_0@ == old(self)@.sweep_all(old(self)@.index, now).1,
            !old(self)@.is_admin(admin) ==> r == Err::<Vec<u64>, ContractError>(
                ContractError::Unauthorized,
            ) && final(self)@ == old(self)@,
    {
        match self.require_admin(admin) {
            Ok(()) => {},
            Err(e) => {
                return Err(e);
            },
        }
        let ghost v0 = self@;
        let mut swept: Vec<u64> = Vec::new();
        let mut k: usize = 0;
        while k < self.address_index.len()
            invariant
                k <= self.address_index.len(),
                self.address_index@ == v0.index,
                self.inv(),
                (self@, swept@) == v0.sweep_all(v0.index.take(k as int), now),
            decreases self.address_index.len() - k,
        {
            assert(v0.index.take(k + 1).drop_last() =~= v0.index.take(k as int));
            let a = self.address_index[k];
            let lapsed = self.allowed.contains(&a) && match self.allowed_until.get(&a) {
                Some(e) => now >= *e,
                None => false,
            };
            if lapsed {
                self.allowed.remove(&a);
                self.allowed_until.remove(&a);
                self.allow_count = self.allow_count.saturating_sub(1);
                swept.push(a);
            }
            k = k + 1;
        }
        assert(v0.index.take(v0.index.len() as int) =~= v0.index);
        Ok(swept)
    }

    /// The entries at index positions `from..to`, with their state at `now`.
    fn snapshot_range(&self, from: usize, to: usize, now: u64) -> (r: Vec<(u64, AddressState)>)
        requires
            from <= to <= self@.index.len(),
        ensures
            r@ == self@.snapshot(from as int, to as int, now),
    {
        let mut out: Vec<(u64, AddressState)> = Vec::new();
        let mut i: usize = from;
        while i < to
            invariant
                from <= i <= to <= self@.index.len(),
                out@ == self@.snapshot(from as int, i as int, now),
            decreases to - i,
        {
            let a = self.address_index[i];
            let st = self.address_state(a, now);
            out.push((a, st));
            i = i + 1;
            assert(out@ =~= self@.snapshot(from as int, i as int, now));
        }
        out
    }

    /// The indexed addresses from position `offset` on, with their state at
    /// `now`: up to `limit` of them, or all the rest when `limit` is `0`.
    /// Only the admin may call it.
    pub fn export_snapshot(&self, admin: u64, offset: u32, limit: u32, now: u64) -> (r: Vec<
        (u64, AddressState),
    >)
        requires
            self@.is_admin(admin),
        ensures
            ({
                let len = self@.index.len() as int;
                let end = if limit == 0 {
                    len
                } else if offset + limit < len {
                    offset + limit
                } else {
                    len
                };
                r@ == if offset < end {
                    self@.snapshot(offset as int, end, now)
                } else {
                    Seq::empty()
                }
            }),
    {
        let len = self.address_index.len();
        let start = offset as usize;
        let end: usize = if limit == 0 {
            len
        } else if (offset as u64) + (limit as u64) < len as u64 {
            start + limit as usize
        } else {
            len
        };
        if start < end {
            self.snapshot_range(start, end, now)
        } else {
            Vec::new()
        }
    }

    /// Skips the first `start` indexed addresses and returns up to `limit` of
    /// the rest, with their state at `now`. Only the admin may call it.
    pub fn export_snapshot_page(&self, admin: u64, start: u64, limit: u64, now: u64) -> (r: Vec<
        (u64, AddressState),
    >)
        requires
            self@.is_admin(admin),
        ensures
            ({
                let len = self@.index.len() as int;
                let end = if start + limit < len {
                    start + limit
                } else {
                    len
                };
                r@ == if start < end {
                    self@.snapshot(start as int, end, now)
                } else {
                    Seq::empty()
                }
            }),
    {
        let len = self.address_index.len();
        if start >= len as u64 {
            return Vec::new();
        }
        let from = start as usize;
        let to: usize = if limit < (len as u64) - start {
            from + limit as usize
        } else {
            len
        };
        self.snapshot_range(from, to, now)
    }

}

/// The state invariant holds of a contract that was never initialized.
pub proof fn law_new_is_wf(v: ComplianceView)
    requires
        v.index == Seq::<u64>::empty(),
        v.allowed == Set::<u64>::empty(),
        v.blocked == Set::<u64>::empty(),
        v.allowed_until == Map::<u64, u64>::empty(),
        v.blocked_until == Map::<u64, u64>::empty(),
    ensures
        v.wf(),
{
}

/// Tracking one more address keeps the index within its cap and free of
/// duplicates.
pub proof fn lemma_track_wf(index: Seq<u64>, a: u64)
    requires
        index.no_duplicates(),
        index.len() <= MAX_TRACKED_ADDRESSES,
        can_track(index, a),
    ensures
        track(index, a).no_duplicates(),
        track(index, a).len() <= MAX_TRACKED_ADDRESSES,
{
}

/// A batch that fits under the cap leaves the index bounded and free of
/// duplicates, and the batch fold records exactly what `track_all` computes.
proof fn lemma_track_all_wf(index: Seq<u64>, s: Seq<u64>)
    requires
        index.no_duplicates(),
        index.len() <= MAX_TRACKED_ADDRESSES,
        track_all(index, s) is Some,
    ensures
        track_all(index, s).unwrap().no_duplicates(),
        track_all(index, s).unwrap().len() <= MAX_TRACKED_ADDRESSES,
    decreases s.len(),
{
    if s.len() > 0 {
        lemma_track_all_wf(index, s.drop_last());
    }
}

proof fn lemma_allow_all_index(v: ComplianceView, s: Seq<u64>)
    requires
        track_all(v.index, s) is Some,
    ensures
        v.allow_all(s).index == track_all(v.index, s).unwrap(),
    decreases s.len(),
{
    if s.len() > 0 {
        lemma_allow_all_index(v, s.drop_last());
    }
}

proof fn lemma_block_all_index(v: ComplianceView, s: Seq<u64>, by: u64)
    requires
        track_all(v.index, s) is Some,
    ensures
        v.block_all(s, by).index == track_all(v.index, s).unwrap(),
    decreases s.len(),
{
    if s.len() > 0 {
        lemma_block_all_index(v, s.drop_last(), by);
    }
}

/// Tracking `a` records it and keeps every address already recorded.
proof fn lemma_track_contains(index: Seq<u64>, a: u64)
    ensures
        track(index, a).contains(a),
        forall|b: u64| index.contains(b) ==> #[trigger] track(index, a).contains(b),
{
    if !index.contains(a) {
        let t = index.push(a);
        assert(t[index.len() as int] == a);
        assert forall|b: u64| index.contains(b) implies #[trigger] t.contains(b) by {
            let j = choose|j: int| 0 <= j < index.len() && index[j] == b;
            assert(t[j] == b);
        }
    }
}

proof fn lemma_allow_all_recorded(v: ComplianceView, s: Seq<u64>)
    requires
        v.recorded_in_index(),
    ensures
        v.allow_all(s).recorded_in_index(),
    decreases s.len(),
{
    if s.len() > 0 {
        lemma_allow_all_recorded(v, s.drop_last());
        lemma_track_contains(v.allow_all(s.drop_last()).index, s.last());
    }
}

proof fn lemma_block_all_recorded(v: ComplianceView, s: Seq<u64>, by: u64)
    requires
        v.recorded_in_index(),
    ensures
        v.block_all(s, by).recorded_in_index(),
    decreases s.len(),
{
    if s.len() > 0 {
        lemma_block_all_recorded(v, s.drop_last(), by);
        lemma_track_contains(v.block_all(s.drop_last(), by).index, s.last());
    }
}

proof fn lemma_sweep_all_recorded(v: ComplianceView, s: Seq<u64>, now: u64)
    requires
        v.recorded_in_index(),
    ensures
        v.sweep_all(s, now).0.recorded_in_index(),
    decreases s.len(),
{
    if s.len() > 0 {
        lemma_sweep_all_recorded(v, s.drop_last(), now);
    }
}

proof fn lemma_sweep_all_index(v: ComplianceView, s: Seq<u64>, now: u64)
    ensures
        v.sweep_all(s, now).0.index == v.index,
    decreases s.len(),
{
    if s.len() > 0 {
        lemma_sweep_all_index(v, s.drop_last(), now);
    }
}

/// Every mutating entrypoint that succeeds keeps the address index within
/// `MAX_TRACKED_ADDRESSES` and free of duplicates, and keeps every allowed,
/// blocked or expiring address in it.
pub proof fn law_mutations_preserve_wf(
    v: ComplianceView,
    admin: u64,
    a: u64,
    s: Seq<u64>,
    t: u64,
    tier: u32,
    reason: Option<Seq<u8>>,
)
    requires
        v.wf(),
    ensures
        v.allow_address(admin, a) matches Ok(w) ==> w.wf(),
        v.allow_address_with_tier(admin, a, tier) matches Ok(w) ==> w.wf(),
        v.allow_address_until(admin, a, t) matches Ok(w) ==> w.wf(),
        v.revoke_allow(admin, a) matches Ok(w) ==> w.wf(),
        v.block_address(admin, a, reason) matches Ok(w) ==> w.wf(),
        v.block_address_until(admin, a, t, reason) matches Ok(w) ==> w.wf(),
        v.clear_address(admin, a) matches Ok(w) ==> w.wf(),
        v.bulk_allow_addresses(admin, s, t) matches Ok(w) ==> w.wf(),
        v.bulk_block_addresses(admin, s, t) matches Ok(w) ==> w.wf(),
        v.sweep_all(v.index, t).0.wf(),
{
    lemma_track_contains(v.index, a);
    if can_track(v.index, a) {
        lemma_track_wf(v.index, a);
    }
    if track_all(v.index, s) is Some {
        lemma_track_all_wf(v.index, s);
        let w1 = ComplianceView { last_bulk_allow: v.last_bulk_allow.insert(admin, t), ..v };
        lemma_allow_all_index(w1, s);
        lemma_allow_all_recorded(w1, s);
        let w2 = ComplianceView { last_bulk_block: v.last_bulk_block.insert(admin, t), ..v };
        lemma_block_all_index(w2, s, admin);
        lemma_block_all_recorded(w2, s, admin);
    }
    lemma_sweep_all_index(v, v.index, t);
    lemma_sweep_all_recorded(v, v.index, t);
}

/// Under the invariant an address outside the index is neither allowed nor
/// blocked; so once the index is full, allowing a new address is refused
/// with `AddressIndexFull` and the address stays not allowed.
pub proof fn law_full_index_keeps_new_addresses_out(
    v: ComplianceView,
    admin: u64,
    a: u64,
    now: u64,
)
    requires
        v.wf(),
        !v.index.contains(a),
        v.index.len() >= MAX_TRACKED_ADDRESSES,
        v.is_admin(admin),
        !v.paused,
    ensures
        v.allow_address(admin, a) == Err::<ComplianceView, ContractError>(
            ContractError::AddressIndexFull,
        ),
        !v.allowed_at(a, now),
        !v.blocked.contains(a),
{
}

/// A block with no lift time, or one whose lift time is still ahead, denies
/// regardless of the allowlist; an expired block does not.
pub proof fn law_block_overrides_allow(v: ComplianceView, a: u64, now: u64)
    ensures
        v.blocked.contains(a) && (!v.blocked_until.contains_key(a) || now
            < v.blocked_until[a]) ==> !v.allowed_at(a, now),
        v.blocked.contains(a) && v.blocked_until.contains_key(a) && now >= v.blocked_until[a]
            ==> (v.allowed_at(a, now) == v.unblocked_allowed_at(a, now)),
{
}

/// Allowing every address of `s` allows `s` on top of what was allowed,
/// drops the expiry of each address of `s` and keeps every other expiry and
/// the blocklist.
proof fn lemma_allow_all_effect(v: ComplianceView, s: Seq<u64>, x: u64)
    ensures
        v.allow_all(s).allowed.contains(x) <==> (v.allowed.contains(x) || s.contains(x)),
        v.allow_all(s).allowed_until.contains_key(x) <==> (v.allowed_until.contains_key(x)
            && !s.contains(x)),
        v.allow_all(s).allowed_until.contains_key(x) ==> v.allow_all(s).allowed_until[x]
            == v.allowed_until[x],
        v.allow_all(s).blocked == v.blocked,
        v.allow_all(s).blocked_until == v.blocked_until,
    decreases s.len(),
{
    if s.len() > 0 {
        let t = s.drop_last();
        lemma_allow_all_effect(v, t, x);
        if t.contains(x) {
            let i = choose|i: int| 0 <= i < t.len() && t[i] == x;
            assert(s[i] == x);
        }
        if s.contains(x) {
            let i = choose|i: int| 0 <= i < s.len() && s[i] == x;
            if i < t.len() {
                assert(t[i] == x);
            }
        }
        if x == s.last() {
            assert(s[s.len() - 1] == x);
        }
    }
}

/// A bulk allow is permanent, as `allow_address` is: each address of the
/// batch ends up allowed with no expiry, so it is allowed at every time at
/// which no block on it is in force; every other address keeps its allow
/// status and expiry, and the blocklist is left as it was.
pub proof fn law_bulk_allow_is_permanent(
    v: ComplianceView,
    admin: u64,
    s: Seq<u64>,
    now: u64,
    a: u64,
    t: u64,
)
    ensures
        v.bulk_allow_addresses(admin, s, now) matches Ok(w) ==> {
            &&& s.contains(a) ==> w.allowed.contains(a) && !w.allowed_until.contains_key(a) && (
            !v.block_active(a, t) ==> w.allowed_at(a, t))
            &&& !s.contains(a) ==> w.allowed.contains(a) == v.allowed.contains(a)
                && w.allowed_until.contains_key(a) == v.allowed_until.contains_key(a) && (
            v.allowed_until.contains_key(a) ==> w.allowed_until[a] == v.allowed_until[a])
            &&& w.blocked == v.blocked
            &&& w.blocked_until == v.blocked_until
        },
{
    if v.bulk_allow_addresses(admin, s, now) is Ok {
        let v0 = ComplianceView { last_bulk_allow: v.last_bulk_allow.insert(admin, now), ..v };
        lemma_allow_all_effect(v0, s, a);
    }
}

/// A successful permanent allow makes the address allowed at every time at
/// which no block on it is in force.
pub proof fn law_allow_then_allowed(v: ComplianceView, admin: u64, a: u64, now: u64)
    ensures
        v.allow_address(admin, a) matches Ok(w) ==> (w.allowed_at(a, now) <==> !v.block_active(
            a,
            now,
        )),
{
}

/// A successful time-bound allow holds strictly before its expiry and never
/// at or after it.
pub proof fn law_allow_until_expires(
    v: ComplianceView,
    admin: u64,
    a: u64,
    expires_at: u64,
    now: u64,
)
    ensures
        v.allow_address_until(admin, a, expires_at) matches Ok(w) ==> (w.allowed_at(a, now) <==> (
        !v.block_active(a, now) && now < expires_at)),
{
}

/// A successful block denies the address, except once a lift time recorded
/// earlier by `block_address_until` has passed; `block_address` leaves such a
/// lift time in place.
pub proof fn law_block_then_denied(
    v: ComplianceView,
    admin: u64,
    a: u64,
    reason: Option<Seq<u8>>,
    now: u64,
)
    ensures
        v.block_address(admin, a, reason) matches Ok(w) ==> (w.is_blocked_view(a) && (
        !v.blocked_until.contains_key(a) || now < v.blocked_until[a] ==> !w.allowed_at(a, now))),
{
}

/// A successful timed block denies strictly before `unblock_at`; from then
/// on the address is judged by the allowlist alone.
pub proof fn law_block_until_lifts(
    v: ComplianceView,
    admin: u64,
    a: u64,
    unblock_at: u64,
    reason: Option<Seq<u8>>,
    now: u64,
)
    ensures
        v.block_address_until(admin, a, unblock_at, reason) matches Ok(w) ==> (if now
            < unblock_at {
            !w.allowed_at(a, now)
        } else {
            w.allowed_at(a, now) == v.unblocked_allowed_at(a, now)
        }),
{
}

/// After a successful clear the address is not blocked, and it is allowed
/// unless an older `allowed_until` expiry has passed.
pub proof fn law_clear_then_allowed(v: ComplianceView, admin: u64, a: u64, now: u64)
    ensures
        v.clear_address(admin, a) matches Ok(w) ==> (!w.is_blocked_view(a) && (w.allowed_at(a, now)
            <==> (!v.allowed_until.contains_key(a) || now < v.allowed_until[a]))),
{
}

/// After a successful revoke the address is not allowed at any time.
pub proof fn law_revoke_then_denied(v: ComplianceView, admin: u64, a: u64, now: u64)
    ensures
        v.revoke_allow(admin, a) matches Ok(w) ==> !w.allowed_at(a, now),
{
}

/// Pausing and unpausing never change what `is_allowed` reports.
pub proof fn law_pause_keeps_decisions(v: ComplianceView, a: u64, now: u64)
    ensures
        (ComplianceView { paused: true, ..v }).allowed_at(a, now) == v.allowed_at(a, now),
        (ComplianceView { paused: false, ..v }).allowed_at(a, now) == v.allowed_at(a, now),
{
}

/// While paused the allow-side mutations are refused with `ContractPaused`,
/// while blocking and clearing stay available to the admin.
pub proof fn law_pause_policy(
    v: ComplianceView,
    admin: u64,
    a: u64,
    s: Seq<u64>,
    t: u64,
    tier: u32,
)
    requires
        v.paused,
        v.is_admin(admin),
    ensures
        v.allow_address(admin, a) == Err::<ComplianceView, ContractError>(
            ContractError::ContractPaused,
        ),
        v.allow_address_with_tier(admin, a, tier) == Err::<ComplianceView, ContractError>(
            ContractError::ContractPaused,
        ),
        v.allow_address_until(admin, a, t) == Err::<ComplianceView, ContractError>(
            ContractError::ContractPaused,
        ),
        v.revoke_allow(admin, a) == Err::<ComplianceView, ContractError>(
            ContractError::ContractPaused,
        ),
        v.bulk_allow_addresses(admin, s, t) == Err::<ComplianceView, ContractError>(
            ContractError::ContractPaused,
        ),
        can_track(v.index, a) ==> v.block_address(admin, a, None) is Ok,
        can_track(v.index, a) ==> v.clear_address(admin, a) is Ok,
{
}

/// The admin changes hands in two steps: after the admin's nomination the
/// admin is unchanged, only the nominee can accept, and acceptance makes the
/// nominee admin and clears the nomination, so it cannot be accepted twice.
/// Nobody but the admin can nominate.
pub proof fn law_admin_handover(v: ComplianceView, caller: u64, nominee: u64, other: u64)
    requires
        other != nominee,
    ensures
        !v.is_admin(caller) ==> v.transfer_admin(caller, nominee) == Err::<
            ComplianceView,
            ContractError,
        >(ContractError::Unauthorized),
        v.transfer_admin(caller, nominee) matches Ok(w) ==> {
            &&& w.admin == v.admin
            &&& w.accept_admin(other) == Err::<ComplianceView, ContractError>(
                ContractError::Unauthorized,
            )
            &&& w.accept_admin(nominee) matches Ok(z) && z.is_admin(nominee)
                && z.pending_admin is None && z.accept_admin(nominee) is Err
        },
{
}

/// A second bulk call by the same admin within `BULK_OP_COOLDOWN_SECS` of a
/// successful one is refused with `BulkOperationCooldown`.
pub proof fn law_bulk_cooldown(
    v: ComplianceView,
    admin: u64,
    s1: Seq<u64>,
    s2: Seq<u64>,
    t1: u64,
    t2: u64,
)
    requires
        t1 + BULK_OP_COOLDOWN_SECS <= u64::MAX,
        t2 < t1 + BULK_OP_COOLDOWN_SECS,
    ensures
        v.bulk_allow_addresses(admin, s1, t1) matches Ok(w) ==> w.bulk_allow_addresses(
            admin,
            s2,
            t2,
        ) == Err::<ComplianceView, ContractError>(ContractError::BulkOperationCooldown),
        v.bulk_block_addresses(admin, s1, t1) matches Ok(w) ==> w.bulk_block_addresses(
            admin,
            s2,
            t2,
        ) == Err::<ComplianceView, ContractError>(ContractError::BulkOperationCooldown),
{
    if v.bulk_allow_addresses(admin, s1, t1) is Ok {
        let w0 = ComplianceView { last_bulk_allow: v.last_bulk_allow.insert(admin, t1), ..v };
        lemma_allow_all_keeps(w0, s1);
    }
    if v.bulk_block_addresses(admin, s1, t1) is Ok {
        let w0 = ComplianceView { last_bulk_block: v.last_bulk_block.insert(admin, t1), ..v };
        lemma_block_all_keeps(w0, s1, admin);
    }
}

proof fn lemma_allow_all_keeps(v: ComplianceView, s: Seq<u64>)
    ensures
        v.allow_all(s).admin == v.admin,
        v.allow_all(s).paused == v.paused,
        v.allow_all(s).last_bulk_allow == v.last_bulk_allow,
    decreases s.len(),
{
    if s.len() > 0 {
        lemma_allow_all_keeps(v, s.drop_last());
    }
}

proof fn lemma_block_all_keeps(v: ComplianceView, s: Seq<u64>, by: u64)
    ensures
        v.block_all(s, by).admin == v.admin,
        v.block_all(s, by).last_bulk_block == v.last_bulk_block,
    decreases s.len(),
{
    if s.len() > 0 {
        lemma_block_all_keeps(v, s.drop_last(), by);
    }
}

proof fn lemma_sweep_all_removes_only_lapsed(v: ComplianceView, s: Seq<u64>, now: u64)
    ensures
        forall|b: u64|
            #![trigger v.sweep_all(s, now).0.allowed.contains(b)]
            v.allowed.contains(b) && !v.sweep_all(s, now).0.allowed.contains(b) ==> (
            v.allowed_until.contains_key(b) && now >= v.allowed_until[b]),
        forall|b: u64|
            #![trigger v.sweep_all(s, now).0.allowed.contains(b)]
            v.sweep_all(s, now).0.allowed.contains(b) ==> v.allowed.contains(b),
        forall|b: u64|
            #![trigger v.sweep_all(s, now).0.allowed_until.contains_key(b)]
            v.sweep_all(s, now).0.allowed.contains(b) ==> (v.sweep_all(
                s,
                now,
            ).0.allowed_until.contains_key(b) == v.allowed_until.contains_key(b) && (
            v.allowed_until.contains_key(b) ==> v.sweep_all(s, now).0.allowed_until[b]
                == v.allowed_until[b])),
        v.sweep_all(s, now).0.blocked == v.blocked,
        v.sweep_all(s, now).0.blocked_until == v.blocked_until,
    decreases s.len(),
{
    if s.len() > 0 {
        lemma_sweep_all_removes_only_lapsed(v, s.drop_last(), now);
    }
}

/// The expiry sweep changes no `is_allowed` decision at the sweep time or
/// later: it only removes allows that have already lapsed.
pub proof fn law_sweep_keeps_decisions(v: ComplianceView, a: u64, now: u64, t: u64)
    requires
        t >= now,
    ensures
        v.sweep_all(v.index, now).0.allowed_at(a, t) == v.allowed_at(a, t),
{
    lemma_sweep_all_removes_only_lapsed(v, v.index, now);
}

/// A coarse `Allowed` state always agrees with `is_allowed`.
pub proof fn law_state_allowed_implies_allowed(v: ComplianceView, a: u64, now: u64)
    ensures
        v.state_of(a, now) == AddressState::Allowed ==> v.allowed_at(a, now),
        !v.blocked.contains(a) ==> (v.state_of(a, now) == AddressState::Allowed <==> v.allowed_at(
            a,
            now,
        )),
{
}

/// The operator may block but grants nothing: an operator who is not the
/// admin is refused every allow-side mutation and every bulk call with
/// `Unauthorized`, may block an address that is not blocked yet (and is
/// recorded as the placer), and may read `address_status`.
pub proof fn law_operator_cannot_mutate(
    v: ComplianceView,
    operator: u64,
    a: u64,
    s: Seq<u64>,
    t: u64,
    tier: u32,
    reason: Option<Seq<u8>>,
)
    requires
        v.operator == Some(operator),
        !v.is_admin(operator),
    ensures
        v.is_admin_or_operator(operator),
        v.allow_address(operator, a) == Err::<ComplianceView, ContractError>(
            ContractError::Unauthorized,
        ),
        v.allow_address_with_tier(operator, a, tier) == Err::<ComplianceView, ContractError>(
            ContractError::Unauthorized,
        ),
        v.allow_address_until(operator, a, t) == Err::<ComplianceView, ContractError>(
            ContractError::Unauthorized,
        ),
        v.revoke_allow(operator, a) == Err::<ComplianceView, ContractError>(
            ContractError::Unauthorized,
        ),
        v.bulk_allow_addresses(operator, s, t) == Err::<ComplianceView, ContractError>(
            ContractError::Unauthorized,
        ),
        v.bulk_block_addresses(operator, s, t) == Err::<ComplianceView, ContractError>(
            ContractError::Unauthorized,
        ),
        can_track(v.index, a) && !v.blocked.contains(a) ==> (v.block_address(operator, a, reason) matches Ok(w)
            && w.blocked.contains(a) && w.placer[a] == operator),
        !v.blocked.contains(a) ==> v.clear_address(operator, a) == Err::<
            ComplianceView,
            ContractError,
        >(ContractError::Unauthorized),
{
}

/// Every block records who placed it, and the operator can lift only its
/// own blocks: a block placed by the admin survives the operator's clear,
/// which is refused with `OperatorCannotClearAdminBlock` (and so changes
/// nothing), as is an operator's attempt to block it again and so take it
/// over, while a block the operator placed can be lifted by it, which
/// unblocks and allows the address and drops the placer.
pub proof fn law_block_provenance(
    v: ComplianceView,
    admin: u64,
    operator: u64,
    a: u64,
    t: u64,
    reason: Option<Seq<u8>>,
)
    requires
        v.is_admin(admin),
        v.operator == Some(operator),
        admin != operator,
    ensures
        v.block_address(admin, a, reason) matches Ok(w) ==> {
            &&& w.placer[a] == admin
            &&& w.clear_address(operator, a) == Err::<ComplianceView, ContractError>(
                ContractError::OperatorCannotClearAdminBlock,
            )
            &&& w.block_address(operator, a, reason) == Err::<ComplianceView, ContractError>(
                ContractError::OperatorCannotClearAdminBlock,
            )
            &&& w.block_address_until(operator, a, t, reason) == Err::<
                ComplianceView,
                ContractError,
            >(ContractError::OperatorCannotClearAdminBlock)
            &&& w.clear_address(admin, a) is Ok
        },
        v.block_address_until(admin, a, t, reason) matches Ok(w) ==> w.clear_address(operator, a)
            == Err::<ComplianceView, ContractError>(ContractError::OperatorCannotClearAdminBlock),
        v.bulk_block_addresses(admin, seq![a], t) matches Ok(w) ==> w.clear_address(operator, a)
            == Err::<ComplianceView, ContractError>(ContractError::OperatorCannotClearAdminBlock),
        v.block_address(operator, a, reason) matches Ok(w) ==> {
            &&& w.placer[a] == operator
            &&& w.clear_address(operator, a) matches Ok(z) && !z.blocked.contains(a)
                && z.allowed.contains(a) && !z.placer.contains_key(a)
        },
{
    lemma_track_contains(v.index, a);
    if v.bulk_block_addresses(admin, seq![a], t) is Ok {
        let w0 = ComplianceView { last_bulk_block: v.last_bulk_block.insert(admin, t), ..v };
        assert(seq![a].drop_last() =~= Seq::<u64>::empty());
        assert(w0.block_all(seq![a], admin) == w0.block_all(Seq::<u64>::empty(), admin).block_one(
            a,
            admin,
        ));
    }
}

proof fn lemma_sweep_all_keeps_tier(v: ComplianceView, s: Seq<u64>, now: u64)
    ensures
        v.sweep_all(s, now).0.tier == v.tier,
    decreases s.len(),
{
    if s.len() > 0 {
        lemma_sweep_all_keeps_tier(v, s.drop_last(), now);
    }
}

/// The tier is metadata kept apart from the allow status: a time-bound
/// allow and the expiry sweep leave every recorded tier as it was.
pub proof fn law_tier_survives_expiry(v: ComplianceView, admin: u64, a: u64, expires_at: u64, now: u64)
    ensures
        v.allow_address_until(admin, a, expires_at) matches Ok(w) ==> w.tier == v.tier,
        v.sweep_all(v.index, now).0.tier == v.tier,
{
    lemma_sweep_all_keeps_tier(v, v.index, now);
}

} // verus!
