//! What holds of the generator in every state, proved over its model.

use crate::bytes::be_value;
use crate::bytes::lemma_eight_bytes_fit;
use crate::bytes::word_modulus;
use crate::hash::DIGEST_LEN;
use crate::model::advanced;
use crate::model::after_bytes;
use crate::model::after_bytes_unclocked;
use crate::model::bounded;
use crate::model::drawn_word;
use crate::model::emitted;
use crate::model::gate_open;
use crate::model::gated;
use crate::model::mixed;
use crate::model::reseeded;
use crate::model::stirred;
use crate::model::valid_range;
use crate::model::with_entropy;
use crate::model::PoolState;
use crate::model::RESEED_INTERVAL;
use vstd::prelude::*;

verus! {

/// Adding entropy always changes the pool: it grows by one digest width,
/// whatever the state and whatever the value. Seed and reseed time stay.
pub proof fn lemma_entropy_changes_pool(s: PoolState, entropy: u64)
    ensures
        with_entropy(s, entropy).pool.len() == s.pool.len() + DIGEST_LEN,
        with_entropy(s, entropy).pool != s.pool,
        with_entropy(s, entropy).pool.take(s.pool.len() as int) == s.pool,
        with_entropy(s, entropy).seed == s.seed,
        with_entropy(s, entropy).last_reseed_time == s.last_reseed_time,
{
    assert(with_entropy(s, entropy).pool.take(s.pool.len() as int) =~= s.pool);
}

/// Mixing replaces the pool by exactly one digest width of bytes, however
/// long the pool had grown. Seed and reseed time stay.
pub proof fn lemma_mix_bounds_pool(s: PoolState, entropy: u64)
    ensures
        mixed(s, entropy).pool.len() == DIGEST_LEN,
        mixed(s, entropy).seed == s.seed,
        mixed(s, entropy).last_reseed_time == s.last_reseed_time,
{
}

/// Extraction steps never touch the seed or the reseed time, and after the
/// first of them the pool is one digest width long.
pub proof fn lemma_steps_keep_seed(s: PoolState, n: nat)
    ensures
        advanced(s, n).seed == s.seed,
        advanced(s, n).last_reseed_time == s.last_reseed_time,
        n > 0 ==> advanced(s, n).pool.len() == DIGEST_LEN,
    decreases n,
{
    if n > 0 {
        lemma_steps_keep_seed(s, (n - 1) as nat);
    }
}

/// A reseed replaces the pool in every case: the pool that it leaves is one
/// digest width long and is the same whatever the clock reads. A pool of any
/// other length, the empty pool of a fresh generator among them, is
/// therefore changed.
pub proof fn lemma_reseed_replaces_pool(s: PoolState, new_seed: u64, now: u64)
    ensures
        reseeded(s, new_seed, now).pool == stirred(s, new_seed).pool,
        reseeded(s, new_seed, now).pool.len() == DIGEST_LEN,
        s.pool.len() != DIGEST_LEN ==> reseeded(s, new_seed, now).pool != s.pool,
{
}

/// A reseed moves the seed only through its time gate. With the clock more
/// than 60 seconds past the last recorded reseed, the seed is exclusive-ored
/// with the new value and the clock reading is recorded. Otherwise, and so
/// whenever the clock reads at or before the recorded time, both stay.
pub proof fn lemma_reseed_gates_seed(s: PoolState, new_seed: u64, now: u64)
    ensures
        gate_open(s.last_reseed_time, now) <==> now >= s.last_reseed_time + RESEED_INTERVAL + 1,
        gate_open(s.last_reseed_time, now) ==> {
            &&& reseeded(s, new_seed, now).seed == s.seed ^ new_seed
            &&& reseeded(s, new_seed, now).last_reseed_time == now
        },
        !gate_open(s.last_reseed_time, now) ==> {
            &&& reseeded(s, new_seed, now).seed == s.seed
            &&& reseeded(s, new_seed, now).last_reseed_time == s.last_reseed_time
        },
        reseeded(s, new_seed, now).seed != s.seed ==> gate_open(s.last_reseed_time, now),
        reseeded(s, new_seed, now).last_reseed_time >= s.last_reseed_time,
{
}

/// Once a reseed has perturbed the seed, no reseed perturbs it again at a
/// clock reading up to 60 seconds later.
pub proof fn lemma_gate_shuts_behind(s: PoolState, new_seed: u64, now: u64, later: u64)
    requires
        gate_open(s.last_reseed_time, now),
        later <= now + RESEED_INTERVAL,
    ensures
        !gate_open(gated(s, new_seed, now).last_reseed_time, later),
        gated(gated(s, new_seed, now), new_seed, later) == gated(s, new_seed, now),
{
}

/// A drawn word is the big-endian reading of the eight bytes that a draw of
/// eight bytes emits from the same state; eight bytes always fit the word.
pub proof fn lemma_word_packs_drawn_bytes(s: PoolState)
    ensures
        emitted(s, 8).len() == 8,
        be_value(emitted(s, 8)) < word_modulus(),
        drawn_word(s) == be_value(emitted(s, 8)),
{
    lemma_eight_bytes_fit(emitted(s, 8));
}

/// A draw emits as many bytes as were asked for, and a longer draw from the
/// same state begins with the bytes of a shorter one.
pub proof fn lemma_emitted_extends(s: PoolState, n: nat, m: nat)
    requires
        n <= m,
    ensures
        emitted(s, n).len() == n,
        emitted(s, m).take(n as int) == emitted(s, n),
{
    assert(emitted(s, m).take(n as int) =~= emitted(s, n));
}

/// A bounded number lies in its range, both ends included.
pub proof fn lemma_bounded_in_range(n: u64, min: u64, max: u64)
    requires
        valid_range(min, max),
    ensures
        min <= bounded(n, min, max) <= max,
{
}

/// Drawing bytes ends in a reseed: with or without a clock the pool is left
/// one digest width long, and without one the seed has not moved.
pub proof fn lemma_draw_ends_in_reseed(s: PoolState, n: nat, now: u64)
    ensures
        after_bytes(s, n, now).pool == after_bytes_unclocked(s, n).pool,
        after_bytes(s, n, now).pool.len() == DIGEST_LEN,
        after_bytes_unclocked(s, n).seed == s.seed,
        after_bytes(s, n, now).seed != s.seed ==> gate_open(s.last_reseed_time, now),
{
    lemma_steps_keep_seed(s, n);
}

} // verus!
