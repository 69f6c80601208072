//! The generator as mathematics: its state, and each operation as a function
//! from state to state.

use crate::bytes::be_bytes;
use crate::bytes::be_value;
use crate::bytes::low_byte;
use crate::hash::digest;
use vstd::prelude::*;

verus! {

/// The least number of seconds that must lie strictly behind the clock before
/// the seed is perturbed again.
pub const RESEED_INTERVAL: u64 = 60;

/// The multiplier of the rolling hash that folds the pool into a word.
pub const ROLLING_MULTIPLIER: u64 = 33;

/// What a generator holds.
pub struct PoolState {
    /// The long-lived scalar that starts the rolling hash.
    pub seed: u64,
    /// The entropy pool, in insertion order.
    pub pool: Seq<u8>,
    /// Seconds since the epoch at which the seed was last perturbed; 0 for never.
    pub last_reseed_time: u64,
}

/// The state of a generator that was made with `seed` and has done nothing.
pub open spec fn fresh(seed: u64) -> PoolState {
    PoolState { seed, pool: Seq::empty(), last_reseed_time: 0 }
}

/// One round of the rolling hash: `acc * 33 + byte`, modulo two to the 64.
pub open spec fn roll(acc: u64, byte: u8) -> u64 {
    ((acc * ROLLING_MULTIPLIER + byte) % 0x1_0000_0000_0000_0000) as u64
}

/// The rolling hash of `bytes`, taken in order, started at `start`.
pub open spec fn rolling_hash(start: u64, bytes: Seq<u8>) -> u64
    decreases bytes.len(),
{
    if bytes.len() == 0 {
        start
    } else {
        roll(rolling_hash(start, bytes.drop_last()), bytes.last())
    }
}

/// The scalar summary of a state: the rolling hash of the pool, started at the
/// seed, exclusive-ored with the time of the last reseed.
pub open spec fn combined(s: PoolState) -> u64 {
    rolling_hash(s.seed, s.pool) ^ s.last_reseed_time
}

/// The state after the digest of `entropy` was appended to the pool.
pub open spec fn with_entropy(s: PoolState, entropy: u64) -> PoolState {
    PoolState { pool: s.pool + digest(be_bytes(entropy)), ..s }
}

/// The state after the pool was replaced by the digest of itself followed by
/// the bytes of `entropy`.
pub open spec fn mixed(s: PoolState, entropy: u64) -> PoolState {
    PoolState { pool: digest(s.pool + be_bytes(entropy)), ..s }
}

/// The part of a reseed that always runs: `new_seed` is added to the pool, and
/// the scalar summary of the result is mixed back in.
pub open spec fn stirred(s: PoolState, new_seed: u64) -> PoolState {
    let grown = with_entropy(s, new_seed);
    mixed(grown, combined(grown))
}

/// Whether a clock reading of `now` seconds lies more than the reseed interval
/// after `last`. A reading at or before `last` never does.
pub open spec fn gate_open(last: u64, now: u64) -> bool {
    now - last > RESEED_INTERVAL
}

/// The time-gated part of a reseed: where `gate_open` holds, the seed is
/// exclusive-ored with `new_seed` and the time is recorded, else nothing moves.
pub open spec fn gated(s: PoolState, new_seed: u64, now: u64) -> PoolState {
    if gate_open(s.last_reseed_time, now) {
        PoolState { seed: s.seed ^ new_seed, last_reseed_time: now, ..s }
    } else {
        s
    }
}

/// The state after a reseed with `new_seed` at a clock reading of `now`.
pub open spec fn reseeded(s: PoolState, new_seed: u64, now: u64) -> PoolState {
    gated(stirred(s, new_seed), new_seed, now)
}

/// The state after one extraction step: the scalar summary is mixed back in.
pub open spec fn stepped(s: PoolState) -> PoolState {
    mixed(s, combined(s))
}

/// The state after `n` extraction steps.
pub open spec fn advanced(s: PoolState, n: nat) -> PoolState
    decreases n,
{
    if n == 0 {
        s
    } else {
        stepped(advanced(s, (n - 1) as nat))
    }
}

/// The bytes that `n` extraction steps emit: the `i`-th is the low byte of the
/// scalar summary of the state that `i` steps have reached.
pub open spec fn emitted(s: PoolState, n: nat) -> Seq<u8> {
    Seq::new(n, |i: int| low_byte(combined(advanced(s, i as nat))))
}

/// The value that a batch of bytes hands to the reseed that closes it: the
/// last byte, or 0 for an empty batch.
pub open spec fn closing_seed(bytes: Seq<u8>) -> u64 {
    if bytes.len() == 0 {
        0
    } else {
        bytes.last() as u64
    }
}

/// The state after `n` bytes were drawn at a clock reading of `now`.
pub open spec fn after_bytes(s: PoolState, n: nat, now: u64) -> PoolState {
    reseeded(advanced(s, n), closing_seed(emitted(s, n)), now)
}

/// The state after `n` bytes were drawn and the clock could not be read: the
/// closing reseed stopped before its gate.
pub open spec fn after_bytes_unclocked(s: PoolState, n: nat) -> PoolState {
    stirred(advanced(s, n), closing_seed(emitted(s, n)))
}

/// The word that eight drawn bytes spell, most significant byte first.
pub open spec fn drawn_word(s: PoolState) -> u64 {
    be_value(emitted(s, 8)) as u64
}

/// The width of the inclusive range from `min` to `max`.
pub open spec fn range_width(min: u64, max: u64) -> int {
    max - min + 1
}

/// Whether `min` and `max` bound a range whose width fits a 64-bit word.
pub open spec fn valid_range(min: u64, max: u64) -> bool {
    min <= max && range_width(min, max) <= u64::MAX
}

/// The word `n` reduced into the inclusive range from `min` to `max`.
pub open spec fn bounded(n: u64, min: u64, max: u64) -> int {
    min + n % (range_width(min, max) as u64)
}

} // verus!
