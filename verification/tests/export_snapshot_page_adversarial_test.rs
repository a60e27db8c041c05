//! `export_snapshot_page` against an index filled to `MAX_TRACKED_ADDRESSES`:
//! adversarial start/limit combinations return cleanly and in insertion order.

use comebackhere::compliance::{
    AddressState, ComplianceContract, ContractError, BULK_OP_COOLDOWN_SECS, MAX_BATCH_SIZE,
    MAX_TRACKED_ADDRESSES,
};

const CAP: u32 = MAX_TRACKED_ADDRESSES;

struct Env {
    now: u64,
    next: u64,
}

impl Env {
    fn generate(&mut self) -> u64 {
        self.next += 1;
        self.next
    }
}

fn setup() -> (Env, u64, ComplianceContract) {
    let mut env = Env { now: 0, next: 0 };
    let admin = env.generate();
    let mut client = ComplianceContract::new();
    client.initialize(admin).unwrap();
    (env, admin, client)
}

fn fill_index_to_cap(env: &mut Env, admin: u64, client: &mut ComplianceContract) -> Vec<u64> {
    let mut all = Vec::with_capacity(CAP as usize);
    let mut remaining = CAP;
    while remaining > 0 {
        let batch_size = remaining.min(MAX_BATCH_SIZE);
        let mut batch = Vec::new();
        for _ in 0..batch_size {
            let addr = env.generate();
            batch.push(addr);
            all.push(addr);
        }
        client.bulk_allow_addresses(admin, &batch, env.now).unwrap();
        remaining -= batch_size;
        if remaining > 0 {
            env.now += BULK_OP_COOLDOWN_SECS + 1;
        }
    }
    all
}

#[test]
fn index_filled_to_cap_rejects_further_growth() {
    let (mut env, admin, mut client) = setup();
    let recorded = fill_index_to_cap(&mut env, admin, &mut client);
    assert_eq!(recorded.len() as u32, CAP);

    let one_more = env.generate();
    let result = client.allow_address(admin, one_more);
    assert_eq!(result, Err(ContractError::AddressIndexFull));
}

#[test]
fn page_with_start_near_end_and_oversized_limit_returns_remaining_suffix_only() {
    let (mut env, admin, mut client) = setup();
    let recorded = fill_index_to_cap(&mut env, admin, &mut client);

    let start = (CAP - 3) as u64;
    let page = client.export_snapshot_page(admin, start, 10_000, env.now);

    assert_eq!(page.len(), 3);
    for (i, (addr, state)) in page.iter().enumerate() {
        assert_eq!(*addr, recorded[CAP as usize - 3 + i]);
        assert_eq!(*state, AddressState::Allowed);
    }
}

#[test]
fn page_with_limit_zero_returns_empty_regardless_of_start() {
    let (mut env, admin, mut client) = setup();
    fill_index_to_cap(&mut env, admin, &mut client);

    assert_eq!(client.export_snapshot_page(admin, 0, 0, env.now).len(), 0);
    assert_eq!(client.export_snapshot_page(admin, (CAP - 1) as u64, 0, env.now).len(), 0);
}

#[test]
fn page_with_start_exactly_at_total_returns_empty() {
    let (mut env, admin, mut client) = setup();
    fill_index_to_cap(&mut env, admin, &mut client);
    let page = client.export_snapshot_page(admin, CAP as u64, 10, env.now);
    assert_eq!(page.len(), 0);
}

#[test]
fn page_with_start_beyond_total_returns_empty_not_panic() {
    let (mut env, admin, mut client) = setup();
    fill_index_to_cap(&mut env, admin, &mut client);

    let page = client.export_snapshot_page(admin, CAP as u64 + 12_345, 10, env.now);
    assert_eq!(page.len(), 0);

    let page_max = client.export_snapshot_page(admin, u64::MAX, 10, env.now);
    assert_eq!(page_max.len(), 0);
}

#[test]
fn page_with_limit_u64_max_near_end_is_bounded_by_remaining_not_by_limit() {
    let (mut env, admin, mut client) = setup();
    let recorded = fill_index_to_cap(&mut env, admin, &mut client);

    let start = (CAP - 25) as u64;
    let page = client.export_snapshot_page(admin, start, u64::MAX, env.now);

    assert_eq!(page.len(), 25);
    for (i, (addr, _)) in page.iter().enumerate() {
        assert_eq!(*addr, recorded[CAP as usize - 25 + i]);
    }
}

#[test]
fn full_index_page_matches_insertion_order() {
    let (mut env, admin, mut client) = setup();
    let recorded = fill_index_to_cap(&mut env, admin, &mut client);

    let page = client.export_snapshot_page(admin, 0, CAP as u64, env.now);
    assert_eq!(page.len() as u32, CAP);
    for (i, (addr, state)) in page.iter().enumerate() {
        assert_eq!(*addr, recorded[i]);
        assert_eq!(*state, AddressState::Allowed);
    }
}
