//! Differential test for `is_allowed` against an independent reimplementation
//! of the documented precedence rules, over the full combinatorial state space
//! plus randomized timestamps near the expiry boundaries.

use comebackhere::compliance::ComplianceContract;

/// 1. blocked with no `blocked_until`, or `now < blocked_until`: false.
/// 2. blocked with `now >= blocked_until`: the block has lapsed; go on.
/// 3. not allowed: false.
/// 4. allowed with `allowed_until`: true iff `now < allowed_until`.
/// 5. allowed with no expiry: true.
fn reference_is_allowed(
    blocked: bool,
    blocked_until: Option<u64>,
    allowed: bool,
    allowed_until: Option<u64>,
    now: u64,
) -> bool {
    if blocked {
        match blocked_until {
            Some(unblock_at) if now >= unblock_at => {}
            _ => return false,
        }
    }
    if !allowed {
        return false;
    }
    match allowed_until {
        Some(expires_at) => now < expires_at,
        None => true,
    }
}

struct Case {
    blocked: bool,
    blocked_until: Option<u64>,
    allowed: bool,
    allowed_until: Option<u64>,
    now: u64,
}

/// Deterministic xorshift64 generator.
struct Xorshift64(u64);

impl Xorshift64 {
    fn next(&mut self) -> u64 {
        let mut x = self.0;
        x ^= x << 13;
        x ^= x >> 7;
        x ^= x << 17;
        self.0 = x;
        x
    }

    fn next_range(&mut self, lo: u64, hi: u64) -> u64 {
        lo + (self.next() % (hi - lo + 1))
    }

    fn next_bool(&mut self) -> bool {
        self.next() % 2 == 0
    }
}

const BASE_NOW: u64 = 1_000_000;

fn generate_cases() -> Vec<Case> {
    let mut cases = Vec::new();

    let blocked_shapes: [Option<Option<i64>>; 4] =
        [None, Some(None), Some(Some(-500)), Some(Some(500_000))];
    let allowed_shapes: [Option<Option<i64>>; 4] =
        [None, Some(None), Some(Some(-500)), Some(Some(500_000))];

    for b in blocked_shapes {
        for a in allowed_shapes {
            let (blocked, blocked_until) = match b {
                None => (false, None),
                Some(None) => (true, None),
                Some(Some(off)) => (true, Some((BASE_NOW as i64 + off) as u64)),
            };
            let (allowed, allowed_until) = match a {
                None => (false, None),
                Some(None) => (true, None),
                Some(Some(off)) => (true, Some((BASE_NOW as i64 + off) as u64)),
            };
            cases.push(Case { blocked, blocked_until, allowed, allowed_until, now: BASE_NOW });
        }
    }

    cases.push(Case {
        blocked: true,
        blocked_until: Some(BASE_NOW),
        allowed: true,
        allowed_until: None,
        now: BASE_NOW,
    });
    cases.push(Case {
        blocked: false,
        blocked_until: None,
        allowed: true,
        allowed_until: Some(BASE_NOW),
        now: BASE_NOW,
    });

    let mut rng = Xorshift64(0x5EED_C0FF_EE15_BEEF);
    for _ in 0..500 {
        let blocked = rng.next_bool();
        let blocked_until = if blocked && rng.next_bool() {
            Some(rng.next_range(BASE_NOW - 1000, BASE_NOW + 1000))
        } else {
            None
        };
        let allowed = rng.next_bool();
        let allowed_until = if allowed && rng.next_bool() {
            Some(rng.next_range(BASE_NOW - 1000, BASE_NOW + 1000))
        } else {
            None
        };
        let now = rng.next_range(BASE_NOW - 1500, BASE_NOW + 1500);
        cases.push(Case { blocked, blocked_until, allowed, allowed_until, now });
    }

    cases
}

fn real_is_allowed(client: &mut ComplianceContract, admin: u64, address: u64, case: &Case) -> bool {
    if case.allowed {
        match case.allowed_until {
            Some(expires_at) => client.allow_address_until(admin, address, expires_at).unwrap(),
            None => client.allow_address(admin, address).unwrap(),
        }
    }
    if case.blocked {
        match case.blocked_until {
            Some(unblock_at) => {
                client.block_address_until(admin, address, unblock_at, None).unwrap()
            }
            None => client.block_address(admin, address, None).unwrap(),
        }
    }
    client.is_allowed(address, case.now)
}

#[test]
fn is_allowed_matches_independent_reference_implementation() {
    let admin = 1u64;
    let mut client = ComplianceContract::new();
    client.initialize(admin).unwrap();

    let cases = generate_cases();
    assert!(cases.len() >= 500, "expected a large randomized case set, got {}", cases.len());

    let mut mismatches = Vec::new();
    for (i, case) in cases.iter().enumerate() {
        let expected = reference_is_allowed(
            case.blocked,
            case.blocked_until,
            case.allowed,
            case.allowed_until,
            case.now,
        );
        let address = 1_000 + i as u64;
        let actual = real_is_allowed(&mut client, admin, address, case);
        if actual != expected {
            mismatches.push(format!(
                "case {i}: blocked={} blocked_until={:?} allowed={} allowed_until={:?} now={} \
                 -> contract={actual} reference={expected}",
                case.blocked, case.blocked_until, case.allowed, case.allowed_until, case.now
            ));
        }
    }

    assert!(
        mismatches.is_empty(),
        "is_allowed disagreed with the reference implementation in {} of {} cases:\n{}",
        mismatches.len(),
        cases.len(),
        mismatches.join("\n")
    );
}

#[test]
fn reference_implementation_blocks_beat_allows() {
    assert!(!reference_is_allowed(true, None, true, None, BASE_NOW));
    assert!(reference_is_allowed(false, None, true, None, BASE_NOW));
    assert!(!reference_is_allowed(false, None, false, None, BASE_NOW));
    assert!(reference_is_allowed(true, Some(BASE_NOW - 1), true, None, BASE_NOW));
    assert!(!reference_is_allowed(true, Some(BASE_NOW + 1), true, None, BASE_NOW));
}
