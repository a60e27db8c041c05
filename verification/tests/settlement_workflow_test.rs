//! The compliance gate in front of treasury settlement.

use std::collections::HashMap;

use comebackhere::compliance::ComplianceContract;
use comebackhere::workflow::{SettlementWorkflowContract, TreasuryError};

const WORKFLOW_ID: u64 = 900_001;
const TOKEN_ID: u64 = 900_002;

/// A treasury with proposed settlements and a token reserve.
struct Treasury {
    settlements: HashMap<u64, (u64, i128, bool)>,
    next_id: u64,
    reserve: i128,
    balances: HashMap<u64, i128>,
}

impl Treasury {
    fn propose_settlement(&mut self, merchant: u64, amount: i128) -> u64 {
        self.next_id += 1;
        self.settlements.insert(self.next_id, (merchant, amount, false));
        self.next_id
    }

    fn execute_settlement(&mut self, id: u64) -> bool {
        match self.settlements.get_mut(&id) {
            Some((merchant, amount, done)) if !*done && self.reserve >= *amount => {
                *done = true;
                self.reserve -= *amount;
                *self.balances.entry(*merchant).or_insert(0) += *amount;
                true
            }
            _ => false,
        }
    }

    fn balance(&self, of: u64) -> i128 {
        self.balances.get(&of).copied().unwrap_or(0)
    }
}

struct Fixture {
    admin: u64,
    merchant: u64,
    compliance: ComplianceContract,
    treasury: Treasury,
    workflow: SettlementWorkflowContract,
}

fn setup() -> Fixture {
    let admin = 1;
    let mut compliance = ComplianceContract::new();
    compliance.initialize(admin).unwrap();
    let mut workflow = SettlementWorkflowContract::new();
    workflow.initialize(10, 11).unwrap();
    Fixture {
        admin,
        merchant: 2,
        compliance,
        treasury: Treasury { settlements: HashMap::new(), next_id: 0, reserve: 0, balances: HashMap::new() },
        workflow,
    }
}

impl Fixture {
    fn execute_with_compliance(&mut self, id: u64, merchant: u64) -> Result<bool, TreasuryError> {
        let compliant = self.compliance.is_allowed(merchant, 0);
        let call = self.workflow.execute_with_compliance(WORKFLOW_ID, id, TOKEN_ID, compliant)?;
        assert_eq!(call.treasury, 11);
        assert_eq!((call.caller, call.settlement_id, call.token), (WORKFLOW_ID, id, TOKEN_ID));
        Ok(self.treasury.execute_settlement(call.settlement_id))
    }

    fn execute_with_compliance_batch(&mut self, ids: &[u64], merchant: u64) -> Result<Vec<u64>, TreasuryError> {
        let compliant = self.compliance.is_allowed(merchant, 0);
        let mut outcomes = vec![false; ids.len()];
        if let Ok(calls) = self.workflow.batch_settlement_calls(WORKFLOW_ID, &ids.to_vec(), TOKEN_ID, compliant) {
            assert_eq!(calls.len(), ids.len());
            for (i, call) in calls.iter().enumerate() {
                assert_eq!((call.settlement_id, call.caller, call.token), (ids[i], WORKFLOW_ID, TOKEN_ID));
                outcomes[i] = self.treasury.execute_settlement(call.settlement_id);
            }
        }
        self.workflow.execute_with_compliance_batch(&ids.to_vec(), compliant, &outcomes)
    }
}

#[test]
fn execution_blocked_when_compliance_returns_false() {
    let mut f = setup();
    let m = f.merchant;
    let settlement_id = f.treasury.propose_settlement(m, 10_000_000);
    f.treasury.reserve += 10_000_000;

    let err = f.execute_with_compliance(settlement_id, m).unwrap_err();
    assert_eq!(err, TreasuryError::ComplianceCheckFailed);
    assert_eq!(f.treasury.balance(m), 0);
}

#[test]
fn successful_path_executes_treasury_settlement() {
    let mut f = setup();
    let (a, m) = (f.admin, f.merchant);
    f.compliance.allow_address(a, m).unwrap();
    let settlement_id = f.treasury.propose_settlement(m, 10_000_000);
    f.treasury.reserve += 10_000_000;

    assert_eq!(f.execute_with_compliance(settlement_id, m), Ok(true));
    assert_eq!(f.treasury.balance(m), 10_000_000);
}

#[test]
fn initialize_is_idempotent_and_pins_trusted_instances() {
    let mut workflow = SettlementWorkflowContract::new();
    workflow.initialize(20, 21).unwrap();
    let err = workflow.initialize(20, 21).unwrap_err();
    assert_eq!(err, TreasuryError::AlreadyInitialized);
}

#[test]
fn batch_executes_multiple_settlements_and_skips_invalid_ids() {
    let mut f = setup();
    let (a, m) = (f.admin, f.merchant);
    f.compliance.allow_address(a, m).unwrap();

    let good_1 = f.treasury.propose_settlement(m, 5_000_000);
    let good_2 = f.treasury.propose_settlement(m, 5_000_000);
    let bogus: u64 = 999;
    f.treasury.reserve += 10_000_000;

    let executed = f.execute_with_compliance_batch(&[good_1, bogus, good_2], m).unwrap();
    assert_eq!(executed, vec![good_1, good_2]);
    assert_eq!(f.treasury.balance(m), 10_000_000);
}

#[test]
fn batch_rejected_when_compliance_fails() {
    let mut f = setup();
    let m = f.merchant;
    let good = f.treasury.propose_settlement(m, 5_000_000);

    let err = f.execute_with_compliance_batch(&[good], m).unwrap_err();
    assert_eq!(err, TreasuryError::ComplianceCheckFailed);
}
