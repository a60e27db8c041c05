//! The settlement workflow: the compliance gate in front of treasury
//! settlement, and the all-or-nothing emergency pause of the protocol.
//!
//! The calls to other contracts (the compliance check, treasury settlement,
//! each target's `pause` / `unpause`) are made by the host glue; the
//! functions here decide from their outcomes. A sweep that any target refused
//! fails as a whole and changes nothing, as the host's rollback of the
//! invocation undoes the pauses already made.
use vstd::prelude::*;

use crate::seq_util::vec_contains;
use crate::seq_util::copy_u64s;

verus! {

/// Largest number of contracts one emergency sweep may cover.
pub const MAX_PAUSE_TARGETS: u32 = 8;

/// Errors of the settlement path.
#[derive(Clone, Copy, Debug, PartialEq, Eq, Structural)]
pub enum TreasuryError {
    /// `initialize` was called a second time.
    AlreadyInitialized,
    /// The merchant did not pass the compliance gate.
    ComplianceCheckFailed,
}

/// Errors of the emergency pause coordination.
#[derive(Clone, Copy, Debug, PartialEq, Eq, Structural)]
pub enum WorkflowError {
    /// The caller is not the registered emergency-pause admin.
    Unauthorized,
    /// `initialize_emergency_pause` has not been called.
    NotConfigured,
    /// A target refused to pause; nothing stays paused.
    PauseTargetFailed,
    /// A target refused to unpause; nothing stays resumed.
    UnpauseTargetFailed,
    /// The target set is empty.
    NoPauseTargets,
    /// More targets than `MAX_PAUSE_TARGETS`.
    TooManyPauseTargets,
    /// The same target appears twice.
    DuplicatePauseTarget,
    /// The workflow contract itself was given as a target.
    SelfPauseTarget,
    /// The target set cannot change while an emergency pause is active.
    EmergencyPauseActive,
    /// `resume_all` was called with no emergency pause active.
    NotEmergencyPaused,
}

/// What a settlement hands the treasury: the treasury contract to call,
/// the caller it executes on behalf of (the workflow contract itself), the
/// settlement and the token it pays in.
#[derive(Clone, Copy, Debug, PartialEq, Eq, Structural)]
pub struct SettlementCall {
    pub treasury: u64,
    pub caller: u64,
    pub settlement_id: u64,
    pub token: u64,
}

/// The treasury call for `settlement_id`.
pub open spec fn settlement_call(treasury: u64, self_id: u64, settlement_id: u64, token: u64) -> SettlementCall {
    SettlementCall { treasury, caller: self_id, settlement_id, token }
}

/// The storage of the settlement workflow contract.
pub struct SettlementWorkflowContract {
    /// The pinned compliance contract.
    pub compliance_id: Option<u64>,
    /// The pinned treasury contract.
    pub treasury_id: Option<u64>,
    /// The address allowed to sweep and resume.
    pub pause_admin: Option<u64>,
    /// The contracts a sweep pauses, in order.
    pub pause_targets: Option<Vec<u64>>,
    /// When the active emergency pause completed; `None` when none is active.
    pub paused_at: Option<u64>,
}

/// The mathematical content of [`SettlementWorkflowContract`].
pub struct WorkflowView {
    pub compliance_id: Option<u64>,
    pub treasury_id: Option<u64>,
    pub pause_admin: Option<u64>,
    pub pause_targets: Option<Seq<u64>>,
    pub paused_at: Option<u64>,
}

impl View for SettlementWorkflowContract {
    type V = WorkflowView;

    open spec fn view(&self) -> WorkflowView {
        WorkflowView {
            compliance_id: self.compliance_id,
            treasury_id: self.treasury_id,
            pause_admin: self.pause_admin,
            pause_targets: match self.pause_targets {
                Some(t) => Some(t@),
                None => None,
            },
            paused_at: self.paused_at,
        }
    }
}

/// The first rule a target set breaks, if any: non-empty, at most
/// `MAX_PAUSE_TARGETS`, then element by element never the workflow itself
/// (`self_id`) and never a repeat of an earlier element.
pub open spec fn target_error(targets: Seq<u64>, self_id: u64) -> Option<WorkflowError> {
    if targets.len() == 0 {
        Some(WorkflowError::NoPauseTargets)
    } else if targets.len() > MAX_PAUSE_TARGETS {
        Some(WorkflowError::TooManyPauseTargets)
    } else {
        element_error(targets, self_id, targets.len() as int)
    }
}

/// The first per-element error among `targets[0..k]`.
pub open spec fn element_error(targets: Seq<u64>, self_id: u64, k: int) -> Option<WorkflowError>
    decreases k,
{
    if k <= 0 {
        None
    } else if element_error(targets, self_id, k - 1) is Some {
        element_error(targets, self_id, k - 1)
    } else if targets[k - 1] == self_id {
        Some(WorkflowError::SelfPauseTarget)
    } else if targets.take(k - 1).contains(targets[k - 1]) {
        Some(WorkflowError::DuplicatePauseTarget)
    } else {
        None
    }
}

/// Whether every target was confirmed: `outcomes[i]` is the outcome of the
/// call on `targets[i]`.
pub open spec fn all_confirmed(targets: Seq<u64>, outcomes: Seq<bool>) -> bool {
    outcomes.len() >= targets.len() && forall|i: int| 0 <= i < targets.len() ==> #[trigger] outcomes[i]
}

impl WorkflowView {
    /// `initialize`.
    pub open spec fn initialize(self, compliance_id: u64, treasury_id: u64) -> Result<
        WorkflowView,
        TreasuryError,
    > {
        if self.compliance_id is Some {
            Err(TreasuryError::AlreadyInitialized)
        } else {
            Ok(
                WorkflowView {
                    compliance_id: Some(compliance_id),
                    treasury_id: Some(treasury_id),
                    ..self
                },
            )
        }
    }

    /// The admin check shared by the sweep and the resume.
    pub open spec fn admin_error(self, admin: u64) -> Option<WorkflowError> {
        if self.pause_admin is None {
            Some(WorkflowError::NotConfigured)
        } else if self.pause_admin != Some(admin) {
            Some(WorkflowError::Unauthorized)
        } else if self.pause_targets is None {
            Some(WorkflowError::NotConfigured)
        } else {
            None
        }
    }

    /// The targets a sweep by `admin` calls, in order.
    pub open spec fn pause_plan(self, admin: u64) -> Result<Seq<u64>, WorkflowError> {
        if self.admin_error(admin) is Some {
            Err(self.admin_error(admin).unwrap())
        } else {
            Ok(self.pause_targets.unwrap())
        }
    }

    /// The targets a resume by `admin` calls, in order (the reverse of the
    /// sweep order).
    pub open spec fn resume_plan(self, admin: u64) -> Result<Seq<u64>, WorkflowError> {
        if self.pause_admin is None {
            Err(WorkflowError::NotConfigured)
        } else if self.pause_admin != Some(admin) {
            Err(WorkflowError::Unauthorized)
        } else if self.paused_at is None {
            Err(WorkflowError::NotEmergencyPaused)
        } else if self.pause_targets is None {
            Err(WorkflowError::NotConfigured)
        } else {
            Ok(self.pause_targets.unwrap().reverse())
        }
    }

    /// `initialize_emergency_pause`.
    pub open spec fn initialize_emergency_pause(
        self,
        admin: u64,
        targets: Seq<u64>,
        self_id: u64,
    ) -> Result<WorkflowView, WorkflowError> {
        if self.paused_at is Some {
            Err(WorkflowError::EmergencyPauseActive)
        } else if self.pause_admin is Some && self.pause_admin != Some(admin) {
            Err(WorkflowError::Unauthorized)
        } else if target_error(targets, self_id) is Some {
            Err(target_error(targets, self_id).unwrap())
        } else {
            Ok(WorkflowView { pause_admin: Some(admin), pause_targets: Some(targets), ..self })
        }
    }

    /// `emergency_pause_all`, given the outcome of each target's `pause`.
    pub open spec fn emergency_pause_all(self, admin: u64, outcomes: Seq<bool>, now: u64) -> Result<
        (WorkflowView, Seq<u64>),
        WorkflowError,
    > {
        match self.pause_plan(admin) {
            Err(e) => Err(e),
            Ok(targets) => if all_confirmed(targets, outcomes) {
                Ok((WorkflowView { paused_at: Some(now), ..self }, targets))
            } else {
                Err(WorkflowError::PauseTargetFailed)
            },
        }
    }

    /// `resume_all`, given the outcome of each target's `unpause`, in the
    /// order of `resume_plan`.
    pub open spec fn resume_all(self, admin: u64, outcomes: Seq<bool>) -> Result<
        (WorkflowView, Seq<u64>),
        WorkflowError,
    > {
        match self.resume_plan(admin) {
            Err(e) => Err(e),
            Ok(targets) => if all_confirmed(targets, outcomes) {
                Ok((WorkflowView { paused_at: None, ..self }, targets))
            } else {
                Err(WorkflowError::UnpauseTargetFailed)
            },
        }
    }
}

/// The settlement IDs whose treasury execution succeeded, in order.
pub open spec fn executed_ids(ids: Seq<u64>, outcomes: Seq<bool>) -> Seq<u64>
    decreases ids.len(),
{
    if ids.len() == 0 {
        Seq::empty()
    } else if outcomes[ids.len() - 1] {
        executed_ids(ids.drop_last(), outcomes).push(ids.last())
    } else {
        executed_ids(ids.drop_last(), outcomes)
    }
}

impl SettlementWorkflowContract {
    /// Storage of a workflow that has not been initialized yet.
    pub fn new() -> (r: SettlementWorkflowContract)
        ensures
            r@ == (WorkflowView {
                compliance_id: None,
                treasury_id: None,
                pause_admin: None,
                pause_targets: None,
                paused_at: None,
            }),
    {
        SettlementWorkflowContract {
            compliance_id: None,
            treasury_id: None,
            pause_admin: None,
            pause_targets: None,
            paused_at: None,
        }
    }

    /// Pins the compliance and treasury contracts; only the first call succeeds.
    pub fn initialize(&mut self, compliance_id: u64, treasury_id: u64) -> (r: Result<
        (),
        TreasuryError,
    >)
        ensures
            match old(self)@.initialize(compliance_id, treasury_id) {
                Ok(v) => r is Ok && final(self)@ == v,
                Err(e) => r == Err::<(), TreasuryError>(e) && final(self)@ == old(self)@,
            },
    {
        if self.compliance_id.is_some() {
            return Err(TreasuryError::AlreadyInitialized);
        }
        self.compliance_id = Some(compliance_id);
        self.treasury_id = Some(treasury_id);
        Ok(())
    }

    /// The compliance gate of a settlement: given whether the merchant passed
    /// the pinned compliance contract's check, the call that executes
    /// `settlement_id` in `token` on the pinned treasury on behalf of this
    /// contract (`self_id`), or `ComplianceCheckFailed` with treasury
    /// untouched.
    pub fn execute_with_compliance(
        &self,
        self_id: u64,
        settlement_id: u64,
        token: u64,
        merchant_compliant: bool,
    ) -> (r: Result<SettlementCall, TreasuryError>)
        requires
            self@.compliance_id is Some,
            self@.treasury_id is Some,
        ensures
            merchant_compliant ==> r == Ok::<SettlementCall, TreasuryError>(
                settlement_call(self@.treasury_id.unwrap(), self_id, settlement_id, token),
            ),
            !merchant_compliant ==> r == Err::<SettlementCall, TreasuryError>(
                TreasuryError::ComplianceCheckFailed,
            ),
    {
        if !merchant_compliant {
            return Err(TreasuryError::ComplianceCheckFailed);
        }
        match self.treasury_id {
            Some(t) => Ok(SettlementCall { treasury: t, caller: self_id, settlement_id, token }),
            None => Err(TreasuryError::ComplianceCheckFailed),
        }
    }

    /// The treasury calls of a batch settlement, one per ID in order, once
    /// the merchant passed the compliance gate; `ComplianceCheckFailed`, with
    /// no call made, when it did not.
    pub fn batch_settlement_calls(
        &self,
        self_id: u64,
        settlement_ids: &Vec<u64>,
        token: u64,
        merchant_compliant: bool,
    ) -> (r: Result<Vec<SettlementCall>, TreasuryError>)
        requires
            self@.compliance_id is Some,
            self@.treasury_id is Some,
        ensures
            merchant_compliant ==> r is Ok && r->Ok_0@.len() == settlement_ids@.len() && forall|
                i: int,
            |
                0 <= i < settlement_ids@.len() ==> #[trigger] r->Ok_0@[i] == settlement_call(
                    self@.treasury_id.unwrap(),
                    self_id,
                    settlement_ids@[i],
                    token,
                ),
            !merchant_compliant ==> r == Err::<Vec<SettlementCall>, TreasuryError>(
                TreasuryError::ComplianceCheckFailed,
            ),
    {
        if !merchant_compliant {
            return Err(TreasuryError::ComplianceCheckFailed);
        }
        let treasury = match self.treasury_id {
            Some(t) => t,
            None => {
                return Err(TreasuryError::ComplianceCheckFailed);
            },
        };
        let mut calls: Vec<SettlementCall> = Vec::new();
        let mut k: usize = 0;
        while k < settlement_ids.len()
            invariant
                k <= settlement_ids.len(),
                treasury == self@.treasury_id.unwrap(),
                calls@.len() == k,
                forall|i: int|
                    0 <= i < k ==> #[trigger] calls@[i] == settlement_call(
                        treasury,
                        self_id,
                        settlement_ids@[i],
                        token,
                    ),
            decreases settlement_ids.len() - k,
        {
            calls.push(
                SettlementCall { treasury, caller: self_id, settlement_id: settlement_ids[k], token },
            );
            k = k + 1;
        }
        Ok(calls)
    }

    /// The batch settlement: rejected wholesale when the merchant fails the
    /// compliance gate; otherwise the IDs whose execution succeeded
    /// (`outcomes[i]` for `settlement_ids[i]`), in order, the rest skipped.
    pub fn execute_with_compliance_batch(
        &self,
        settlement_ids: &Vec<u64>,
        merchant_compliant: bool,
        outcomes: &Vec<bool>,
    ) -> (r: Result<Vec<u64>, TreasuryError>)
        requires
            self@.compliance_id is Some,
            self@.treasury_id is Some,
            outcomes@.len() == settlement_ids@.len(),
        ensures
            merchant_compliant ==> r is Ok && r->Ok_0@ == executed_ids(settlement_ids@, outcomes@),
            !merchant_compliant ==> r == Err::<Vec<u64>, TreasuryError>(
                TreasuryError::ComplianceCheckFailed,
            ),
    {
        if !merchant_compliant {
            return Err(TreasuryError::ComplianceCheckFailed);
        }
        let mut out: Vec<u64> = Vec::new();
        let mut k: usize = 0;
        while k < settlement_ids.len()
            invariant
                k <= settlement_ids.len(),
                outcomes@.len() == settlement_ids@.len(),
                out@ == executed_ids(settlement_ids@.take(k as int), outcomes@),
            decreases settlement_ids.len() - k,
        {
            assert(settlement_ids@.take(k + 1).drop_last() =~= settlement_ids@.take(k as int));
            if outcomes[k] {
                out.push(settlement_ids[k]);
            }
            k = k + 1;
        }
        assert(settlement_ids@.take(settlement_ids@.len() as int) =~= settlement_ids@);
        Ok(out)
    }

    /// Checks a target set: the first rule it breaks, if any.
    fn validate_pause_targets(targets: &Vec<u64>, self_id: u64) -> (r: Result<(), WorkflowError>)
        ensures
            r == match target_error(targets@, self_id) {
                Some(e) => Err(e),
                None => Ok::<(), WorkflowError>(()),
            },
    {
        if targets.len() == 0 {
            return Err(WorkflowError::NoPauseTargets);
        }
        if targets.len() > MAX_PAUSE_TARGETS as usize {
            return Err(WorkflowError::TooManyPauseTargets);
        }
        let mut seen: Vec<u64> = Vec::new();
        let mut k: usize = 0;
        while k < targets.len()
            invariant
                k <= targets.len(),
                seen@ == targets@.take(k as int),
                0 < targets@.len() <= MAX_PAUSE_TARGETS,
                element_error(targets@, self_id, k as int) is None,
            decreases targets.len() - k,
        {
            let t = targets[k];
            if t == self_id {
                proof {
                    lemma_element_error_stable(targets@, self_id, k + 1, targets@.len() as int);
                }
                return Err(WorkflowError::SelfPauseTarget);
            }
            if vec_contains(&seen, t) {
                proof {
                    lemma_element_error_stable(targets@, self_id, k + 1, targets@.len() as int);
                }
                return Err(WorkflowError::DuplicatePauseTarget);
            }
            seen.push(t);
            k = k + 1;
            assert(seen@ =~= targets@.take(k as int));
        }
        Ok(())
    }

    /// Pins the emergency-pause admin and the ordered target set. The first
    /// caller becomes the admin; later calls must come from that admin.
    /// Refused while an emergency pause is active or when the set is invalid.
    pub fn initialize_emergency_pause(&mut self, admin: u64, targets: &Vec<u64>, self_id: u64) -> (r:
        Result<(), WorkflowError>)
        ensures
            match old(self)@.initialize_emergency_pause(admin, targets@, self_id) {
                Ok(v) => r is Ok && final(self)@ == v,
                Err(e) => r == Err::<(), WorkflowError>(e) && final(self)@ == old(self)@,
            },
    {
        if self.paused_at.is_some() {
            return Err(WorkflowError::EmergencyPauseActive);
        }
        match self.pause_admin {
            Some(a) => if a != admin {
                return Err(WorkflowError::Unauthorized);
            },
            None => {},
        }
        Self::validate_pause_targets(targets, self_id)?;
        self.pause_admin = Some(admin);
        self.pause_targets = Some(copy_u64s(targets));
        Ok(())
    }

    /// The targets an emergency sweep by `admin` calls, in order, or the
    /// error that refuses the sweep before any target is touched.
    pub fn pause_plan(&self, admin: u64) -> (r: Result<Vec<u64>, WorkflowError>)
        ensures
            match self@.pause_plan(admin) {
                Ok(t) => r is Ok && r->Ok_0@ == t,
                Err(e) => r == Err::<Vec<u64>, WorkflowError>(e),
            },
    {
        match self.pause_admin {
            None => {
                return Err(WorkflowError::NotConfigured);
            },
            Some(a) => if a != admin {
                return Err(WorkflowError::Unauthorized);
            },
        }
        match &self.pause_targets {
            None => Err(WorkflowError::NotConfigured),
            Some(t) => Ok(copy_u64s(t)),
        }
    }

    /// The targets a resume by `admin` calls, in order (last paused first),
    /// or the error that refuses the resume before any target is touched.
    pub fn resume_plan(&self, admin: u64) -> (r: Result<Vec<u64>, WorkflowError>)
        ensures
            match self@.resume_plan(admin) {
                Ok(t) => r is Ok && r->Ok_0@ == t,
                Err(e) => r == Err::<Vec<u64>, WorkflowError>(e),
            },
    {
        match self.pause_admin {
            None => {
                return Err(WorkflowError::NotConfigured);
            },
            Some(a) => if a != admin {
                return Err(WorkflowError::Unauthorized);
            },
        }
        if self.paused_at.is_none() {
            return Err(WorkflowError::NotEmergencyPaused);
        }
        match &self.pause_targets {
            None => Err(WorkflowError::NotConfigured),
            Some(t) => {
                let mut out: Vec<u64> = Vec::new();
                let mut k: usize = t.len();
                while k > 0
                    invariant
                        k <= t.len(),
                        out@ == t@.reverse().take((t.len() - k) as int),
                    decreases k,
                {
                    k = k - 1;
                    out.push(t[k]);
                    assert(out@ =~= t@.reverse().take((t.len() - k) as int));
                }
                assert(t@.reverse().take(t.len() as int) =~= t@.reverse());
                Ok(out)
            },
        }
    }

    /// Whether every planned call was confirmed.
    fn confirmed(targets: &Vec<u64>, outcomes: &Vec<bool>) -> (r: bool)
        ensures
            r == all_confirmed(targets@, outcomes@),
    {
        if outcomes.len() < targets.len() {
            return false;
        }
        let mut k: usize = 0;
        while k < targets.len()
            invariant
                k <= targets.len() <= outcomes.len(),
                forall|i: int| 0 <= i < k ==> #[trigger] outcomes@[i],
            decreases targets.len() - k,
        {
            if !outcomes[k] {
                return false;
            }
            k = k + 1;
        }
        true
    }

    /// Records a completed emergency sweep: `outcomes[i]` is whether the
    /// `pause` of the `i`-th planned target succeeded. The sweep succeeds
    /// only when every target confirmed; it then records `now` as the pause
    /// time and returns the targets paused, in order.
    pub fn emergency_pause_all(&mut self, admin: u64, outcomes: &Vec<bool>, now: u64) -> (r: Result<
        Vec<u64>,
        WorkflowError,
    >)
        ensures
            match old(self)@.emergency_pause_all(admin, outcomes@, now) {
                Ok((v, t)) => r is Ok && r->Ok_0@ == t && final(self)@ == v,
                Err(e) => r == Err::<Vec<u64>, WorkflowError>(e) && final(self)@ == old(self)@,
            },
    {
        let targets = self.pause_plan(admin)?;
        if !Self::confirmed(&targets, outcomes) {
            return Err(WorkflowError::PauseTargetFailed);
        }
        self.paused_at = Some(now);
        Ok(targets)
    }

    /// Records a completed resume: `outcomes[i]` is whether the `unpause` of
    /// the `i`-th target of `resume_plan` succeeded. Succeeds only when every
    /// target confirmed; it then clears the pause time and returns the
    /// targets resumed, in order.
    pub fn resume_all(&mut self, admin: u64, outcomes: &Vec<bool>) -> (r: Result<
        Vec<u64>,
        WorkflowError,
    >)
        ensures
            match old(self)@.resume_all(admin, outcomes@) {
                Ok((v, t)) => r is Ok && r->Ok_0@ == t && final(self)@ == v,
                Err(e) => r == Err::<Vec<u64>, WorkflowError>(e) && final(self)@ == old(self)@,
            },
    {
        let targets = self.resume_plan(admin)?;
        if !Self::confirmed(&targets, outcomes) {
            return Err(WorkflowError::UnpauseTargetFailed);
        }
        self.paused_at = None;
        Ok(targets)
    }

    /// The configured targets, in sweep order.
    pub fn get_emergency_pause_targets(&self) -> (r: Result<Vec<u64>, WorkflowError>)
        ensures
            match self@.pause_targets {
                Some(t) => r is Ok && r->Ok_0@ == t,
                None => r == Err::<Vec<u64>, WorkflowError>(WorkflowError::NotConfigured),
            },
    {
        match &self.pause_targets {
            Some(t) => Ok(copy_u64s(t)),
            None => Err(WorkflowError::NotConfigured),
        }
    }

    /// The emergency-pause admin.
    pub fn get_emergency_pause_admin(&self) -> (r: Result<u64, WorkflowError>)
        ensures
            r == match self@.pause_admin {
                Some(a) => Ok::<u64, WorkflowError>(a),
                None => Err(WorkflowError::NotConfigured),
            },
    {
        match self.pause_admin {
            Some(a) => Ok(a),
            None => Err(WorkflowError::NotConfigured),
        }
    }

    /// When the active emergency pause completed, if one is active.
    pub fn get_emergency_paused_at(&self) -> (r: Option<u64>)
        ensures
            r == self@.paused_at,
    {
        self.paused_at
    }
}

proof fn lemma_element_error_stable(targets: Seq<u64>, self_id: u64, k: int, m: int)
    requires
        0 <= k <= m,
        element_error(targets, self_id, k) is Some,
    ensures
        element_error(targets, self_id, m) == element_error(targets, self_id, k),
    decreases m - k,
{
    if m > k {
        lemma_element_error_stable(targets, self_id, k, m - 1);
    }
}

/// The first `initialize` pins the compliance and treasury instances for
/// good: every later call is refused with `AlreadyInitialized`, so the
/// compliance check and the settlement always go to the instances pinned
/// first.
pub proof fn law_instances_pinned(
    v: WorkflowView,
    compliance_id: u64,
    treasury_id: u64,
    other_compliance: u64,
    other_treasury: u64,
)
    ensures
        v.initialize(compliance_id, treasury_id) matches Ok(w) ==> {
            &&& w.compliance_id == Some(compliance_id)
            &&& w.treasury_id == Some(treasury_id)
            &&& w.initialize(other_compliance, other_treasury) == Err::<WorkflowView, TreasuryError>(
                TreasuryError::AlreadyInitialized,
            )
        },
{
}

/// The first caller to configure the emergency pause wins: once an admin is
/// set, anyone else is refused with `Unauthorized` and the admin and the
/// targets stay as they were, while the admin may reconfigure when no pause
/// is active.
pub proof fn law_first_configurer_wins(
    v: WorkflowView,
    first: u64,
    first_targets: Seq<u64>,
    other: u64,
    targets: Seq<u64>,
    self_id: u64,
)
    requires
        other != first,
        v.paused_at is None,
    ensures
        v.initialize_emergency_pause(first, first_targets, self_id) matches Ok(w) ==> {
            &&& w.pause_admin == Some(first)
            &&& w.pause_targets == Some(first_targets)
            &&& w.initialize_emergency_pause(other, targets, self_id) == Err::<
                WorkflowView,
                WorkflowError,
            >(WorkflowError::Unauthorized)
            &&& target_error(targets, self_id) is None ==> w.initialize_emergency_pause(
                first,
                targets,
                self_id,
            ) is Ok
        },
{
}

/// A target set that configuration accepts is non-empty, within
/// `MAX_PAUSE_TARGETS`, free of repeats and never names the workflow itself.
pub proof fn law_accepted_targets_are_valid(
    v: WorkflowView,
    admin: u64,
    targets: Seq<u64>,
    self_id: u64,
)
    ensures
        v.initialize_emergency_pause(admin, targets, self_id) is Ok ==> {
            &&& 0 < targets.len() <= MAX_PAUSE_TARGETS
            &&& targets.no_duplicates()
            &&& !targets.contains(self_id)
        },
{
    if target_error(targets, self_id) is None && targets.len() > 0 && targets.len()
        <= MAX_PAUSE_TARGETS {
        lemma_element_error_none(targets, self_id, targets.len() as int);
        assert(targets.take(targets.len() as int) =~= targets);
    }
}

proof fn lemma_element_error_none(targets: Seq<u64>, self_id: u64, k: int)
    requires
        0 <= k <= targets.len(),
        element_error(targets, self_id, k) is None,
    ensures
        targets.take(k).no_duplicates(),
        !targets.take(k).contains(self_id),
    decreases k,
{
    if k > 0 {
        lemma_element_error_none(targets, self_id, k - 1);
        let p = targets.take(k - 1);
        let q = targets.take(k);
        assert(q =~= p.push(targets[k - 1]));
        assert forall|i: int, j: int| 0 <= i < q.len() && 0 <= j < q.len() && i != j implies q[i]
            != q[j] by {
            if i < k - 1 && j < k - 1 {
                assert(q[i] == p[i] && q[j] == p[j]);
            } else if i < k - 1 {
                assert(p[i] == q[i]);
                assert(p.contains(q[i]));
            } else if j < k - 1 {
                assert(p[j] == q[j]);
                assert(p.contains(q[j]));
            }
        }
        if q.contains(self_id) {
            let i = choose|i: int| 0 <= i < q.len() && q[i] == self_id;
            if i < k - 1 {
                assert(p[i] == self_id);
            }
        }
    }
}

/// A sweep succeeds exactly when the caller is the configured admin and
/// every target confirmed its pause; it then records the pause time and
/// reports the targets in their configured order.
pub proof fn law_sweep_all_or_nothing(v: WorkflowView, admin: u64, outcomes: Seq<bool>, now: u64)
    requires
        v.pause_admin == Some(admin),
        v.pause_targets is Some,
    ensures
        v.emergency_pause_all(admin, outcomes, now) is Ok <==> all_confirmed(
            v.pause_targets.unwrap(),
            outcomes,
        ),
        v.emergency_pause_all(admin, outcomes, now) matches Ok((w, t)) ==> w.paused_at == Some(now)
            && t == v.pause_targets.unwrap() && w.pause_targets == v.pause_targets,
{
}

/// After a sweep, the target set is locked until the pause is resumed, and
/// the resume calls the same targets in reverse order; a confirmed resume
/// clears the pause and leaves the configuration as it was.
pub proof fn law_sweep_then_resume(
    v: WorkflowView,
    admin: u64,
    pause_outcomes: Seq<bool>,
    resume_outcomes: Seq<bool>,
    now: u64,
    other_admin: u64,
    new_targets: Seq<u64>,
    self_id: u64,
)
    ensures
        v.emergency_pause_all(admin, pause_outcomes, now) matches Ok((w, t)) ==> {
            &&& w.initialize_emergency_pause(other_admin, new_targets, self_id) == Err::<
                WorkflowView,
                WorkflowError,
            >(WorkflowError::EmergencyPauseActive)
            &&& w.resume_plan(admin) == Ok::<Seq<u64>, WorkflowError>(t.reverse())
            &&& w.resume_all(admin, resume_outcomes) matches Ok((u, r)) ==> (u.paused_at is None
                && u.pause_targets == v.pause_targets && u.pause_admin == v.pause_admin && r
                == t.reverse())
        },
{
}

/// A resume is refused while no emergency pause is active, so the workflow
/// never unpauses what it did not pause.
pub proof fn law_resume_needs_active_pause(v: WorkflowView, admin: u64, outcomes: Seq<bool>)
    requires
        v.paused_at is None,
        v.pause_admin == Some(admin),
    ensures
        v.resume_all(admin, outcomes) == Err::<(WorkflowView, Seq<u64>), WorkflowError>(
            WorkflowError::NotEmergencyPaused,
        ),
{
}

/// The batch settlement reports only IDs it was given whose execution
/// succeeded, in their original order, none more than it was given.
pub proof fn law_executed_ids_are_successes(ids: Seq<u64>, outcomes: Seq<bool>)
    requires
        outcomes.len() == ids.len(),
    ensures
        executed_ids(ids, outcomes).len() <= ids.len(),
        forall|x: u64|
            #[trigger] executed_ids(ids, outcomes).contains(x) ==> exists|i: int|
                0 <= i < ids.len() && ids[i] == x && outcomes[i],
        (forall|i: int| 0 <= i < ids.len() ==> #[trigger] outcomes[i]) ==> executed_ids(
            ids,
            outcomes,
        ) == ids,
    decreases ids.len(),
{
    if ids.len() > 0 {
        let ids2 = ids.drop_last();
        let o2 = outcomes.drop_last();
        lemma_executed_prefix(ids, outcomes);
        law_executed_ids_are_successes(ids2, o2);
        let e2 = executed_ids(ids2, o2);
        assert forall|x: u64| #[trigger] executed_ids(ids, outcomes).contains(x) implies exists|i: int|
            0 <= i < ids.len() && ids[i] == x && outcomes[i] by {
            if e2.contains(x) {
                let i = choose|i: int| 0 <= i < ids2.len() && ids2[i] == x && o2[i];
                assert(ids[i] == x && outcomes[i]);
            } else {
                let e = executed_ids(ids, outcomes);
                let i = choose|i: int| 0 <= i < e.len() && e[i] == x;
                if outcomes[ids.len() - 1] {
                    if i < e2.len() {
                        assert(e2[i] == x);
                    }
                    assert(ids[ids.len() - 1] == x);
                } else {
                    assert(e2[i] == x);
                }
            }
        }
        if forall|i: int| 0 <= i < ids.len() ==> #[trigger] outcomes[i] {
            assert forall|i: int| 0 <= i < ids2.len() implies #[trigger] o2[i] by {
                assert(outcomes[i]);
            }
            assert(outcomes[ids.len() - 1]);
            assert(ids2.push(ids.last()) =~= ids);
        }
    }
}

proof fn lemma_executed_prefix(ids: Seq<u64>, outcomes: Seq<bool>)
    requires
        ids.len() > 0,
        outcomes.len() == ids.len(),
    ensures
        executed_ids(ids.drop_last(), outcomes) == executed_ids(
            ids.drop_last(),
            outcomes.drop_last(),
        ),
{
    lemma_executed_same(ids.drop_last(), outcomes, outcomes.drop_last());
}

proof fn lemma_executed_same(ids: Seq<u64>, o1: Seq<bool>, o2: Seq<bool>)
    requires
        o1.len() >= ids.len(),
        o2.len() >= ids.len(),
        forall|i: int| 0 <= i < ids.len() ==> o1[i] == o2[i],
    ensures
        executed_ids(ids, o1) == executed_ids(ids, o2),
    decreases ids.len(),
{
    if ids.len() > 0 {
        lemma_executed_same(ids.drop_last(), o1, o2);
    }
}

} // verus!
