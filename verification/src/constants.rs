//! The protocol's parameters.

use crate::uint256::U256;
use vstd::prelude::*;

verus! {

/// The subsidy of the first blocks, in whole coins of 10^8 base units.
pub const INITIAL_REWARD: u64 = 50;

/// The number of blocks after which the subsidy halves.
pub const HALVING_INTERVAL: u64 = 210;

/// The time that one block should take, in seconds.
pub const IDEAL_BLOCK_TIME: u64 = 10;

/// The number of blocks after which the target is set anew.
pub const DIFFICULTY_UPDATE_INTERVAL: u64 = 50;

/// The number of base units in one coin.
pub const BASE_UNITS: u64 = 100_000_000;

/// The largest target the protocol allows, which makes for the easiest
/// proof of work: 2^240 - 1.
pub open spec fn max_target() -> U256 {
    U256 {
        w0: 0xFFFF_FFFF_FFFF_FFFF,
        w1: 0xFFFF_FFFF_FFFF_FFFF,
        w2: 0xFFFF_FFFF_FFFF_FFFF,
        w3: 0x0000_FFFF_FFFF_FFFF,
    }
}

/// The largest target the protocol allows.
#[verifier::when_used_as_spec(max_target)]
pub fn min_target() -> (r: U256)
    ensures
        r == max_target(),
{
    U256 {
        w0: 0xFFFF_FFFF_FFFF_FFFF,
        w1: 0xFFFF_FFFF_FFFF_FFFF,
        w2: 0xFFFF_FFFF_FFFF_FFFF,
        w3: 0x0000_FFFF_FFFF_FFFF,
    }
}

} // verus!
