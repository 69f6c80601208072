//! Byte-level encodings used by the generator: the big-endian form of a
//! 64-bit word, the value of a big-endian byte string, and the low byte of a
//! word.

use vstd::prelude::*;

verus! {

/// Two to the power 64, the modulus of 64-bit arithmetic.
pub open spec fn word_modulus() -> nat {
    0x1_0000_0000_0000_0000
}

/// The eight bytes of `v`, most significant first.
pub open spec fn be_bytes(v: u64) -> Seq<u8> {
    seq![
        (v / 0x100_0000_0000_0000 % 256) as u8,
        (v / 0x1_0000_0000_0000 % 256) as u8,
        (v / 0x100_0000_0000 % 256) as u8,
        (v / 0x1_0000_0000 % 256) as u8,
        (v / 0x100_0000 % 256) as u8,
        (v / 0x1_0000 % 256) as u8,
        (v / 0x100 % 256) as u8,
        (v % 256) as u8,
    ]
}

/// The number that `bytes` spells in base 256, most significant byte first.
pub open spec fn be_value(bytes: Seq<u8>) -> nat
    decreases bytes.len(),
{
    if bytes.len() == 0 {
        0
    } else {
        be_value(bytes.drop_last()) * 256 + bytes.last() as nat
    }
}

/// 256 to the power `n`.
pub open spec fn radix_pow(n: nat) -> nat
    decreases n,
{
    if n == 0 {
        1
    } else {
        256 * radix_pow((n - 1) as nat)
    }
}

/// The least significant byte of `v`.
pub open spec fn low_byte(v: u64) -> u8 {
    (v % 256) as u8
}

/// A byte string of length `n` spells a number below 256 to the power `n`.
pub proof fn lemma_be_value_bound(bytes: Seq<u8>)
    ensures
        be_value(bytes) < radix_pow(bytes.len()),
    decreases bytes.len(),
{
    if bytes.len() > 0 {
        lemma_be_value_bound(bytes.drop_last());
    }
}

/// Eight bytes always spell a number that fits a 64-bit word.
pub proof fn lemma_eight_bytes_fit(bytes: Seq<u8>)
    requires
        bytes.len() == 8,
    ensures
        be_value(bytes) < word_modulus(),
{
    lemma_be_value_bound(bytes);
    assert(radix_pow(8) == word_modulus()) by {
        reveal_with_fuel(radix_pow, 9);
    }
}

/// Encoding a word and reading the bytes back gives the word again.
pub proof fn lemma_be_round_trip(v: u64)
    ensures
        be_bytes(v).len() == 8,
        be_value(be_bytes(v)) == v,
{
    let b = be_bytes(v);
    let b7 = b.drop_last();
    let b6 = b7.drop_last();
    let b5 = b6.drop_last();
    let b4 = b5.drop_last();
    let b3 = b4.drop_last();
    let b2 = b3.drop_last();
    let b1 = b2.drop_last();
    let b0 = b1.drop_last();
    assert(v / 0x100_0000_0000_0000 < 256) by (bit_vector);
    assert(v / 0x100_0000_0000_0000 == v / 0x1_0000_0000_0000 / 256) by (bit_vector);
    assert(v / 0x1_0000_0000_0000 == v / 0x100_0000_0000 / 256) by (bit_vector);
    assert(v / 0x100_0000_0000 == v / 0x1_0000_0000 / 256) by (bit_vector);
    assert(v / 0x1_0000_0000 == v / 0x100_0000 / 256) by (bit_vector);
    assert(v / 0x100_0000 == v / 0x1_0000 / 256) by (bit_vector);
    assert(v / 0x1_0000 == v / 0x100 / 256) by (bit_vector);
    assert(be_value(b0) == 0);
    assert(be_value(b1) == v / 0x100_0000_0000_0000);
    assert(be_value(b2) == v / 0x1_0000_0000_0000);
    assert(be_value(b3) == v / 0x100_0000_0000);
    assert(be_value(b4) == v / 0x1_0000_0000);
    assert(be_value(b5) == v / 0x100_0000);
    assert(be_value(b6) == v / 0x1_0000);
    assert(be_value(b7) == v / 0x100);
}

/// The big-endian encoding of `v` as eight bytes.
pub fn to_be_bytes(v: u64) -> (out: Vec<u8>)
    ensures
        out@ == be_bytes(v),
{
    let mut out: Vec<u8> = Vec::with_capacity(8);
    proof {
        assert((v >> 56) & 0xff == v / 0x100_0000_0000_0000 % 256) by (bit_vector);
        assert((v >> 48) & 0xff == v / 0x1_0000_0000_0000 % 256) by (bit_vector);
        assert((v >> 40) & 0xff == v / 0x100_0000_0000 % 256) by (bit_vector);
        assert((v >> 32) & 0xff == v / 0x1_0000_0000 % 256) by (bit_vector);
        assert((v >> 24) & 0xff == v / 0x100_0000 % 256) by (bit_vector);
        assert((v >> 16) & 0xff == v / 0x1_0000 % 256) by (bit_vector);
        assert((v >> 8) & 0xff == v / 0x100 % 256) by (bit_vector);
        assert(v & 0xff == v % 256) by (bit_vector);
    }
    out.push(((v >> 56) & 0xff) as u8);
    out.push(((v >> 48) & 0xff) as u8);
    out.push(((v >> 40) & 0xff) as u8);
    out.push(((v >> 32) & 0xff) as u8);
    out.push(((v >> 24) & 0xff) as u8);
    out.push(((v >> 16) & 0xff) as u8);
    out.push(((v >> 8) & 0xff) as u8);
    out.push((v & 0xff) as u8);
    assert(out@ =~= be_bytes(v));
    out
}

/// The least significant byte of `v`.
pub fn low_byte_of(v: u64) -> (b: u8)
    ensures
        b == low_byte(v),
{
    assert(v & 0xff == v % 256) by (bit_vector);
    (v & 0xff) as u8
}

/// Folds `bytes` into a word, most significant byte first: each byte shifts
/// the word left by eight bits and takes the low place. Bits shifted past the
/// top are lost, so the result is the spelled number modulo two to the 64.
pub fn pack_be(bytes: &[u8]) -> (word: u64)
    ensures
        word == be_value(bytes@) % word_modulus(),
        bytes@.len() <= 8 ==> word == be_value(bytes@),
{
    let mut word: u64 = 0;
    let mut i: usize = 0;
    while i < bytes.len()
        invariant
            i <= bytes@.len(),
            word == be_value(bytes@.take(i as int)) % word_modulus(),
        decreases bytes@.len() - i,
    {
        let b: u8 = bytes[i];
        let ghost prefix = bytes@.take(i as int);
        let ghost next = bytes@.take(i + 1);
        proof {
            assert(next.drop_last() =~= prefix);
            assert(next.last() == b);
            lemma_shift_in(word, b);
            lemma_mod_shift_in(be_value(prefix), b);
        }
        word = (word << 8) | (b as u64);
        i += 1;
    }
    proof {
        assert(bytes@.take(i as int) =~= bytes@);
        if bytes@.len() <= 8 {
            lemma_be_value_bound(bytes@);
            lemma_radix_pow_monotonic(bytes@.len(), 8);
            assert(radix_pow(8) == word_modulus()) by {
                reveal_with_fuel(radix_pow, 9);
            }
        }
    }
    word
}

/// Shifting a word left by eight bits and setting the low byte multiplies by
/// 256 and adds the byte, modulo two to the 64.
proof fn lemma_shift_in(word: u64, b: u8)
    ensures
        ((word << 8) | (b as u64)) == (word as nat * 256 + b as nat) % word_modulus(),
{
    let shifted: u64 = (word << 8) | (b as u64);
    assert(shifted == (word * 256 + b) % 0x1_0000_0000_0000_0000) by (bit_vector)
        requires
            shifted == (word << 8) | (b as u64),
    ;
}

/// Reducing modulo two to the 64 before or after appending a byte agrees.
proof fn lemma_mod_shift_in(n: nat, b: u8)
    ensures
        ((n % word_modulus()) * 256 + b as nat) % word_modulus() == (n * 256 + b as nat)
            % word_modulus(),
{
    let m = word_modulus() as int;
    vstd::arithmetic::div_mod::lemma_mul_mod_noop_left(n as int, 256, m);
    vstd::arithmetic::div_mod::lemma_add_mod_noop(((n % word_modulus()) * 256) as int, b as int, m);
    vstd::arithmetic::div_mod::lemma_add_mod_noop((n * 256) as int, b as int, m);
}

/// Powers of 256 grow with the exponent.
proof fn lemma_radix_pow_monotonic(a: nat, b: nat)
    requires
        a <= b,
    ensures
        radix_pow(a) <= radix_pow(b),
        radix_pow(a) >= 1,
    decreases b,
{
    if a < b {
        lemma_radix_pow_monotonic(a, (b - 1) as nat);
    } else if a > 0 {
        lemma_radix_pow_monotonic((a - 1) as nat, (a - 1) as nat);
    }
}

} // verus!
