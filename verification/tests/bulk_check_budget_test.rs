//! `bulk_check_addresses` gives, for each input address in order, exactly
//! what `is_allowed` gives for it, including repeats and an empty input.

use comebackhere::compliance::ComplianceContract;

const FULL_BATCH: u32 = 50;
const NOW: u64 = 1_000_000;

struct Env {
    next: u64,
}

impl Env {
    fn generate(&mut self) -> u64 {
        self.next += 1;
        self.next
    }
}

fn setup() -> (Env, ComplianceContract, u64) {
    let mut env = Env { next: 0 };
    let admin = env.generate();
    let mut client = ComplianceContract::new();
    client.initialize(admin).unwrap();
    (env, client, admin)
}

/// The distinct states `is_allowed` distinguishes, built through the admin
/// entrypoints, in a fixed order.
fn populate_state_matrix(env: &mut Env, client: &mut ComplianceContract, admin: u64) -> Vec<u64> {
    let mut out = Vec::new();

    // 0: never seen.
    out.push(env.generate());

    // 1: allowed, permanent.
    let allowed = env.generate();
    client.allow_address(admin, allowed).unwrap();
    out.push(allowed);

    // 2: allowed with an expiry still in the future.
    let allowed_live = env.generate();
    client.allow_address_until(admin, allowed_live, 2_000_000).unwrap();
    out.push(allowed_live);

    // 3: allowed with an expiry already in the past.
    let allowed_lapsed = env.generate();
    client.allow_address_until(admin, allowed_lapsed, 500_000).unwrap();
    out.push(allowed_lapsed);

    // 4: blocked, permanently.
    let blocked = env.generate();
    client.block_address(admin, blocked, None).unwrap();
    out.push(blocked);

    // 5: blocked until a future timestamp.
    let blocked_live = env.generate();
    client.block_address_until(admin, blocked_live, 2_000_000, None).unwrap();
    out.push(blocked_live);

    // 6: blocked until a past timestamp, and allowed.
    let block_lapsed = env.generate();
    client.allow_address(admin, block_lapsed).unwrap();
    client.block_address_until(admin, block_lapsed, 500_000, None).unwrap();
    out.push(block_lapsed);

    // 7: allowed, blocked, then cleared.
    let cleared = env.generate();
    client.allow_address(admin, cleared).unwrap();
    client.block_address(admin, cleared, None).unwrap();
    client.clear_address(admin, cleared).unwrap();
    out.push(cleared);

    // 8: allowed and then hard-blocked.
    let allowed_then_blocked = env.generate();
    client.allow_address(admin, allowed_then_blocked).unwrap();
    client.block_address(admin, allowed_then_blocked, None).unwrap();
    out.push(allowed_then_blocked);

    out
}

fn build_batch(matrix: &[u64], len: u32) -> Vec<u64> {
    let size = matrix.len();
    (0..len as usize).map(|i| matrix[i % size]).collect()
}

#[test]
fn bulk_check_results_match_is_allowed_across_the_state_matrix() {
    let (mut env, mut client, admin) = setup();
    let matrix = populate_state_matrix(&mut env, &mut client, admin);
    let batch = build_batch(&matrix, FULL_BATCH);

    let bulk = client.bulk_check_addresses(&batch, NOW);

    let mut checked = 0u32;
    for address in batch.iter() {
        let expected = client.is_allowed(*address, NOW);
        assert_eq!(
            bulk.get(checked as usize).copied(),
            Some(expected),
            "bulk_check_addresses disagreed with is_allowed for address at index {checked}"
        );
        checked += 1;
    }
    assert_eq!(checked, FULL_BATCH);
}

#[test]
fn bulk_check_returns_one_result_per_input_in_input_order() {
    let (mut env, mut client, admin) = setup();
    let matrix = populate_state_matrix(&mut env, &mut client, admin);
    let batch = build_batch(&matrix, 8);

    let bulk = client.bulk_check_addresses(&batch, NOW);

    assert_eq!(bulk.len(), batch.len());
    for (i, address) in batch.iter().enumerate() {
        assert_eq!(bulk.get(i).copied(), Some(client.is_allowed(*address, NOW)), "index {i}");
    }
}

#[test]
fn bulk_check_handles_empty_and_repeated_addresses() {
    let (mut env, mut client, admin) = setup();
    let matrix = populate_state_matrix(&mut env, &mut client, admin);
    let allowed = matrix[1];
    let blocked = matrix[4];

    assert!(client.bulk_check_addresses(&Vec::new(), NOW).is_empty());

    let mut repeated = Vec::new();
    for _ in 0..5 {
        repeated.push(allowed);
        repeated.push(blocked);
    }
    let bulk = client.bulk_check_addresses(&repeated, NOW);
    assert_eq!(bulk.len(), 10);
    for i in 0..5usize {
        assert_eq!(bulk.get(i * 2).copied(), Some(true));
        assert_eq!(bulk.get(i * 2 + 1).copied(), Some(false));
    }
}

#[test]
fn state_matrix_decisions_at_the_fixed_time() {
    let (mut env, mut client, admin) = setup();
    let matrix = populate_state_matrix(&mut env, &mut client, admin);
    let bulk = client.bulk_check_addresses(&matrix, NOW);
    assert_eq!(bulk, vec![false, true, true, false, false, false, true, true, false]);
}
