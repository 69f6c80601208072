//! The generator itself: the entropy pool, the mixer, the reseed policy and
//! the extraction of bytes and numbers.

use crate::bytes::be_value;
use crate::bytes::lemma_eight_bytes_fit;
use crate::bytes::low_byte_of;
use crate::bytes::pack_be;
use crate::bytes::to_be_bytes;
use crate::clock::unix_seconds;
use crate::clock::ClockError;
use crate::hash::digest_of;
use crate::hash::DIGEST_LEN;
use crate::model::advanced;
use crate::model::after_bytes;
use crate::model::after_bytes_unclocked;
use crate::model::bounded;
use crate::model::combined;
use crate::model::drawn_word;
use crate::model::emitted;
use crate::model::fresh;
use crate::model::gated;
use crate::model::mixed;
use crate::model::reseeded;
use crate::model::rolling_hash;
use crate::model::stirred;
use crate::model::valid_range;
use crate::model::with_entropy;
use crate::model::PoolState;
use crate::model::RESEED_INTERVAL;
use crate::model::ROLLING_MULTIPLIER;
use std::collections::VecDeque;
use vstd::prelude::*;

verus! {

/// A Yarrow-style generator. It owns its state alone and holds no outside
/// resource.
pub struct Yarrow {
    seed: u64,
    pool: VecDeque<u8>,
    last_reseed_time: u64,
}

impl View for Yarrow {
    type V = PoolState;

    closed spec fn view(&self) -> PoolState {
        PoolState { seed: self.seed, pool: self.pool@, last_reseed_time: self.last_reseed_time }
    }
}

/// Copies the pool into one contiguous buffer.
fn pool_bytes(pool: &VecDeque<u8>) -> (out: Vec<u8>)
    ensures
        out@ == pool@,
{
    let mut out: Vec<u8> = Vec::new();
    let mut i: usize = 0;
    while i < pool.len()
        invariant
            i <= pool@.len(),
            out@ == pool@.take(i as int),
        decreases pool@.len() - i,
    {
        out.push(pool[i]);
        assert(pool@.take(i + 1) =~= pool@.take(i as int).push(pool@[i as int]));
        i += 1;
    }
    assert(pool@.take(i as int) =~= pool@);
    out
}

/// Appends every byte of `bytes` to the tail of the pool.
fn extend_pool(pool: &mut VecDeque<u8>, bytes: &[u8])
    ensures
        final(pool)@ == old(pool)@ + bytes@,
{
    let ghost before = pool@;
    let mut i: usize = 0;
    while i < bytes.len()
        invariant
            i <= bytes@.len(),
            pool@ == before + bytes@.take(i as int),
        decreases bytes@.len() - i,
    {
        pool.push_back(bytes[i]);
        assert(before + bytes@.take(i + 1) =~= (before + bytes@.take(i as int)).push(
            bytes@[i as int],
        ));
        i += 1;
    }
    assert(bytes@.take(i as int) =~= bytes@);
}

impl Clone for Yarrow {
    /// A second generator in the same state, which from here on moves apart
    /// from this one only through what is asked of each.
    fn clone(&self) -> (copy: Self)
        ensures
            copy@ == self@,
    {
        let bytes = pool_bytes(&self.pool);
        let mut pool: VecDeque<u8> = VecDeque::new();
        extend_pool(&mut pool, bytes.as_slice());
        assert(pool@ =~= self.pool@);
        Yarrow { seed: self.seed, pool, last_reseed_time: self.last_reseed_time }
    }
}

impl Yarrow {
    /// A generator with the given seed, an empty pool and no reseed behind it.
    pub fn new(seed: u64) -> (g: Self)
        ensures
            g@ == fresh(seed),
    {
        Yarrow { seed, pool: VecDeque::new(), last_reseed_time: 0 }
    }

    /// The seed as it stands.
    pub fn seed(&self) -> (seed: u64)
        ensures
            seed == self@.seed,
    {
        self.seed
    }

    /// The entropy pool as it stands.
    pub fn pool(&self) -> (pool: &VecDeque<u8>)
        ensures
            pool@ == self@.pool,
    {
        &self.pool
    }

    /// Seconds since the epoch at which the seed was last perturbed, 0 for never.
    pub fn last_reseed_time(&self) -> (time: u64)
        ensures
            time == self@.last_reseed_time,
    {
        self.last_reseed_time
    }

    /// Expands `entropy` into a digest and appends every byte of it to the
    /// pool. The pool grows by one digest width, so it always changes.
    pub fn add_entropy(&mut self, entropy: u64)
        ensures
            final(self)@ == with_entropy(old(self)@, entropy),
            final(self)@.pool.len() == old(self)@.pool.len() + DIGEST_LEN,
            final(self)@.pool != old(self)@.pool,
    {
        let entropy_bytes = to_be_bytes(entropy);
        let hash = digest_of(entropy_bytes.as_slice());
        extend_pool(&mut self.pool, hash.as_slice());
    }

    /// Folds seed, pool and the time of the last reseed into one word.
    pub fn combine_entropy(&self) -> (word: u64)
        ensures
            word == combined(self@),
    {
        let mut acc: u64 = self.seed;
        let mut i: usize = 0;
        while i < self.pool.len()
            invariant
                i <= self.pool@.len(),
                acc == rolling_hash(self.seed, self.pool@.take(i as int)),
            decreases self.pool@.len() - i,
        {
            let byte: u8 = self.pool[i];
            proof {
                let next = self.pool@.take(i + 1);
                assert(next.drop_last() =~= self.pool@.take(i as int));
                assert(next.last() == byte);
            }
            acc = acc.wrapping_mul(ROLLING_MULTIPLIER).wrapping_add(byte as u64);
            i += 1;
        }
        assert(self.pool@.take(i as int) =~= self.pool@);
        acc ^ self.last_reseed_time
    }

    /// Replaces the pool by the digest of the pool followed by the eight
    /// big-endian bytes of `entropy`.
    pub fn mix_entropy(&mut self, entropy: u64)
        ensures
            final(self)@ == mixed(old(self)@, entropy),
            final(self)@.pool.len() == DIGEST_LEN,
    {
        let mut message = pool_bytes(&self.pool);
        let mut entropy_bytes = to_be_bytes(entropy);
        message.append(&mut entropy_bytes);
        let hash = digest_of(message.as_slice());
        let mut pool: VecDeque<u8> = VecDeque::new();
        extend_pool(&mut pool, hash.as_slice());
        assert(pool@ =~= hash@);
        self.pool = pool;
    }

    /// The part of a reseed that needs no clock: adds `new_seed` to the pool
    /// and mixes the scalar summary of the result back in.
    fn stir(&mut self, new_seed: u64)
        ensures
            final(self)@ == stirred(old(self)@, new_seed),
    {
        self.add_entropy(new_seed);
        let word = self.combine_entropy();
        self.mix_entropy(word);
    }

    /// The time-gated part of a reseed, at a clock reading of `now` seconds.
    fn pass_gate(&mut self, new_seed: u64, now: u64)
        ensures
            final(self)@ == gated(old(self)@, new_seed, now),
    {
        if now > self.last_reseed_time && now - self.last_reseed_time > RESEED_INTERVAL {
            self.last_reseed_time = now;
            self.seed = self.seed ^ new_seed;
        }
    }

    /// Reseeds at a clock reading of `now` seconds since the epoch. The pool
    /// is stirred with `new_seed` in any case. The seed is exclusive-ored with
    /// `new_seed`, and `now` recorded, only where `now` lies more than 60
    /// seconds after the last recorded reseed.
    pub fn reseed_at(&mut self, new_seed: u64, now: u64)
        ensures
            final(self)@ == reseeded(old(self)@, new_seed, now),
    {
        self.stir(new_seed);
        self.pass_gate(new_seed, now);
    }

    /// Reseeds at the time that the system clock gives. The pool is stirred
    /// before the clock is read, so it has moved even where the read fails.
    pub fn reseed(&mut self, new_seed: u64) -> (r: Result<(), ClockError>)
        ensures
            match r {
                Ok(_) => exists|now: u64|
                    final(self)@ == #[trigger] reseeded(old(self)@, new_seed, now),
                Err(_) => final(self)@ == stirred(old(self)@, new_seed),
            },
    {
        self.stir(new_seed);
        match unix_seconds() {
            Ok(now) => {
                self.pass_gate(new_seed, now);
                assert(self@ == reseeded(old(self)@, new_seed, now));
                Ok(())
            },
            Err(e) => Err(e),
        }
    }

    /// Runs `count` extraction steps. Each step emits the low byte of the
    /// scalar summary and mixes that summary back into the pool.
    fn draw(&mut self, count: usize) -> (bytes: Vec<u8>)
        ensures
            bytes@ == emitted(old(self)@, count as nat),
            final(self)@ == advanced(old(self)@, count as nat),
    {
        let ghost start = self@;
        let mut bytes: Vec<u8> = Vec::with_capacity(count);
        let mut i: usize = 0;
        while i < count
            invariant
                i <= count,
                bytes@ == emitted(start, i as nat),
                self@ == advanced(start, i as nat),
            decreases count - i,
        {
            let word = self.combine_entropy();
            self.mix_entropy(word);
            bytes.push(low_byte_of(word));
            assert(bytes@ =~= emitted(start, (i + 1) as nat));
            i += 1;
        }
        bytes
    }

    /// Draws `count` bytes at a clock reading of `now` seconds, then reseeds
    /// with the last byte drawn, or with 0 where none was.
    pub fn generate_random_bytes_at(&mut self, count: usize, now: u64) -> (bytes: Vec<u8>)
        ensures
            bytes@ == emitted(old(self)@, count as nat),
            bytes@.len() == count,
            final(self)@ == after_bytes(old(self)@, count as nat, now),
    {
        let bytes = self.draw(count);
        let last: u8 = if bytes.len() == 0 {
            0
        } else {
            bytes[bytes.len() - 1]
        };
        self.reseed_at(last as u64, now);
        bytes
    }

    /// Draws `count` bytes, then reseeds with the last byte drawn, or with 0
    /// where none was, at the time that the system clock gives. Where the
    /// clock cannot be read the bytes are withheld; the state has moved all
    /// the same.
    pub fn generate_random_bytes(&mut self, count: usize) -> (r: Result<Vec<u8>, ClockError>)
        ensures
            match r {
                Ok(bytes) => {
                    &&& bytes@ == emitted(old(self)@, count as nat)
                    &&& bytes@.len() == count
                    &&& exists|now: u64|
                        final(self)@ == #[trigger] after_bytes(old(self)@, count as nat, now)
                },
                Err(_) => final(self)@ == after_bytes_unclocked(old(self)@, count as nat),
            },
    {
        let bytes = self.draw(count);
        let last: u8 = if bytes.len() == 0 {
            0
        } else {
            bytes[bytes.len() - 1]
        };
        self.stir(last as u64);
        match unix_seconds() {
            Ok(now) => {
                self.pass_gate(last as u64, now);
                assert(self@ == after_bytes(old(self)@, count as nat, now));
                Ok(bytes)
            },
            Err(e) => Err(e),
        }
    }

    /// Draws eight bytes at a clock reading of `now` seconds and reads them
    /// as one big-endian word.
    pub fn generate_random_number_at(&mut self, now: u64) -> (n: u64)
        ensures
            n == drawn_word(old(self)@),
            n == be_value(emitted(old(self)@, 8)),
            final(self)@ == after_bytes(old(self)@, 8, now),
    {
        let bytes = self.generate_random_bytes_at(8, now);
        proof {
            lemma_eight_bytes_fit(bytes@);
        }
        pack_be(bytes.as_slice())
    }

    /// Draws eight bytes and reads them as one big-endian word.
    pub fn generate_random_number(&mut self) -> (r: Result<u64, ClockError>)
        ensures
            match r {
                Ok(n) => {
                    &&& n == drawn_word(old(self)@)
                    &&& n == be_value(emitted(old(self)@, 8))
                    &&& exists|now: u64|
                        final(self)@ == #[trigger] after_bytes(old(self)@, 8, now)
                },
                Err(_) => final(self)@ == after_bytes_unclocked(old(self)@, 8),
            },
    {
        match self.generate_random_bytes(8) {
            Ok(bytes) => {
                proof {
                    lemma_eight_bytes_fit(bytes@);
                }
                Ok(pack_be(bytes.as_slice()))
            },
            Err(e) => Err(e),
        }
    }

    /// Draws a word at a clock reading of `now` seconds and reduces it into
    /// the inclusive range from `min` to `max`.
    pub fn generate_bounded_number_at(&mut self, min: u64, max: u64, now: u64) -> (n: u64)
        requires
            valid_range(min, max),
        ensures
            n == bounded(drawn_word(old(self)@), min, max),
            min <= n <= max,
            final(self)@ == after_bytes(old(self)@, 8, now),
    {
        let word = self.generate_random_number_at(now);
        min + word % (max - min + 1)
    }

    /// Draws a word and reduces it into the inclusive range from `min` to
    /// `max`. The reduction is a remainder, so low values of a range whose
    /// width does not divide two to the 64 are slightly favoured.
    pub fn generate_bounded_number(&mut self, min: u64, max: u64) -> (r: Result<u64, ClockError>)
        requires
            valid_range(min, max),
        ensures
            match r {
                Ok(n) => {
                    &&& n == bounded(drawn_word(old(self)@), min, max)
                    &&& min <= n <= max
                    &&& exists|now: u64|
                        final(self)@ == #[trigger] after_bytes(old(self)@, 8, now)
                },
                Err(_) => final(self)@ == after_bytes_unclocked(old(self)@, 8),
            },
    {
        match self.generate_random_number() {
            Ok(word) => Ok(min + word % (max - min + 1)),
            Err(e) => Err(e),
        }
    }
}

} // verus!
