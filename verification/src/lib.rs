//! Verified state machines behind the COMEBACKHERE protocol contracts.
//!
//! - [`compliance`]: the admin-managed allowlist / blocklist and its
//!   `is_allowed` precedence rules.
//! - [`invoice`]: the invoice escrow lifecycle, its validation rules and the
//!   refund fee arithmetic.
//! - [`workflow`]: the settlement workflow's compliance gate and the
//!   all-or-nothing emergency pause coordination.
//!
//! Each contract's storage is modelled by a plain Rust struct; every
//! entrypoint is a method on it whose contract states, over the struct's view,
//! exactly which result it returns and how the stored state changes. An
//! entrypoint that fails leaves the state untouched, as the host does when it
//! rolls back a failed invocation. Addresses are represented by `u64`
//! identifiers; the host glue maps them to on-chain addresses.
use vstd::prelude::*;

pub mod compliance;
pub mod invoice;
pub mod seq_util;
pub mod workflow;

verus! {

} // verus!
