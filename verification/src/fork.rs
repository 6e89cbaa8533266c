//! Hard forks of mainnet.

use vstd::prelude::*;

verus! {

/// Mainnet activation time of Cancun, 2024-03-13 13:55:35 UTC.
pub const CANCUN_TIMESTAMP: u64 = 1_710_338_135;

/// Mainnet activation time of Prague, 2025-05-07 10:05:11 UTC.
pub const PRAGUE_TIMESTAMP: u64 = 1_746_612_311;

/// Mainnet activation time of Osaka, 2025-12-03 21:49:11 UTC, also called Fusaka.
pub const OSAKA_TIMESTAMP: u64 = 1_764_798_551;

/// The guest's number for Cancun.
pub const CANCUN: u8 = 0;

/// The guest's number for Prague.
pub const PRAGUE: u8 = 1;

/// The guest's number for Osaka.
pub const OSAKA: u8 = 2;

/// The latest fork that is active at `timestamp`, by the guest's numbering.
pub open spec fn fork_at(timestamp: u64) -> u8
    recommends
        timestamp >= CANCUN_TIMESTAMP,
{
    if timestamp < PRAGUE_TIMESTAMP {
        CANCUN
    } else if timestamp < OSAKA_TIMESTAMP {
        PRAGUE
    } else {
        OSAKA
    }
}

/// The fork that rules a block. Forks are keyed by the timestamp alone, which
/// is stable across reorganisations; `_number` only identifies the block.
///
/// Blocks from before Cancun have no number in the guest's numbering.
pub fn fork_for_block(timestamp: u64, _number: u64) -> (r: u8)
    requires
        timestamp >= CANCUN_TIMESTAMP,
    ensures
        r == fork_at(timestamp),
        r <= 2,
        r == 2 <==> timestamp >= 1_764_798_551,
        r >= 1 <==> timestamp >= 1_746_612_311,
{
    if timestamp >= OSAKA_TIMESTAMP {
        OSAKA
    } else if timestamp >= PRAGUE_TIMESTAMP {
        PRAGUE
    } else {
        CANCUN
    }
}

/// A later block is never ruled by an earlier fork.
pub proof fn law_fork_monotone(earlier: u64, later: u64)
    requires
        CANCUN_TIMESTAMP <= earlier <= later,
    ensures
        fork_at(earlier) <= fork_at(later),
{
}

/// Each fork takes effect at its activation time and not a second before.
pub proof fn law_fork_activation(timestamp: u64)
    requires
        timestamp >= CANCUN_TIMESTAMP,
    ensures
        fork_at(timestamp) >= PRAGUE <==> timestamp >= PRAGUE_TIMESTAMP,
        fork_at(timestamp) >= OSAKA <==> timestamp >= OSAKA_TIMESTAMP,
        fork_at(timestamp) <= OSAKA,
{
}

/// Osaka is 2 and rules from 1764798551 on, Prague is 1 and rules from 1746612311
/// until then, and Cancun is 0.
pub proof fn law_fork_schedule(timestamp: u64)
    ensures
        fork_at(timestamp) == 2 <==> timestamp >= 1_764_798_551,
        fork_at(timestamp) == 1 <==> 1_746_612_311 <= timestamp < 1_764_798_551,
        fork_at(timestamp) == 0 <==> timestamp < 1_746_612_311,
{
}

} // verus!
