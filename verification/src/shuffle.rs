//! An in-place Fisher-Yates shuffle whose draws come from the wall clock. It
//! shares no state with the generator.

use crate::clock::unix_nanos;
use crate::clock::ClockError;
use vstd::prelude::*;

verus! {

/// `<[T]>::swap` of std exchanges the elements at two positions of a slice
/// and panics where a position is out of bounds, which the precondition
/// rules out.
pub assume_specification<Elem>[ <[Elem]>::swap ](slice: &mut [Elem], a: usize, b: usize)
    requires
        a < old(slice)@.len(),
        b < old(slice)@.len(),
    ensures
        final(slice)@ == old(slice)@.update(a as int, old(slice)@[b as int]).update(
            b as int,
            old(slice)@[a as int],
        ),
;

/// `s` with the elements at `i` and `j` exchanged.
pub open spec fn swapped<T>(s: Seq<T>, i: int, j: int) -> Seq<T> {
    s.update(i, s[j]).update(j, s[i])
}

/// The position that a clock reading of `tick` nanoseconds picks as the
/// partner of position `i`: the reading, cut to the width of an index,
/// modulo `i + 1`.
pub open spec fn drawn_index(tick: u128, i: int) -> int {
    (tick as usize) as int % (i + 1)
}

/// The number of swaps that a shuffle of `len` elements makes.
pub open spec fn swaps_needed(len: nat) -> nat {
    if len == 0 {
        0
    } else {
        (len - 1) as nat
    }
}

/// `s` after the first `k` swaps of a shuffle. The swaps run from the last
/// position down; the one that `ticks[n]` decides exchanges position
/// `s.len() - 1 - n` with the position drawn for it.
pub open spec fn after_swaps<T>(s: Seq<T>, ticks: Seq<u128>, k: nat) -> Seq<T>
    decreases k,
{
    if k == 0 {
        s
    } else {
        let i = s.len() - k;
        swapped(after_swaps(s, ticks, (k - 1) as nat), i, drawn_index(ticks[k - 1], i))
    }
}

/// `s` shuffled with the clock readings `ticks`.
pub open spec fn shuffled<T>(s: Seq<T>, ticks: Seq<u128>) -> Seq<T> {
    after_swaps(s, ticks, swaps_needed(s.len()))
}

/// The smaller of two numbers.
pub open spec fn at_most(a: nat, b: nat) -> nat {
    if a <= b {
        a
    } else {
        b
    }
}

/// Exchanging two elements keeps the length and the multiset of elements.
pub proof fn lemma_swapped_permutes<T>(s: Seq<T>, i: int, j: int)
    requires
        0 <= i < s.len(),
        0 <= j < s.len(),
    ensures
        swapped(s, i, j).len() == s.len(),
        swapped(s, i, j).to_multiset() == s.to_multiset(),
{
    broadcast use vstd::seq_lib::group_to_multiset_ensures;

    let mid = s.update(i, s[j]);
    vstd::seq_lib::to_multiset_update(s, i, s[j]);
    vstd::seq_lib::to_multiset_update(mid, j, s[i]);
    assert(mid[j] == s[j]);
    assert(s.to_multiset().count(s[i]) > 0) by {
        assert(s.contains(s[i]));
    }
    assert(s.to_multiset().count(s[j]) > 0) by {
        assert(s.contains(s[j]));
    }
    assert(swapped(s, i, j).to_multiset() =~= s.to_multiset());
}

/// Any number of swaps of a shuffle, whatever the clock read, keeps the
/// length and the multiset of elements: the result is a permutation.
pub proof fn lemma_after_swaps_permutes<T>(s: Seq<T>, ticks: Seq<u128>, k: nat)
    requires
        k <= swaps_needed(s.len()),
    ensures
        after_swaps(s, ticks, k).len() == s.len(),
        after_swaps(s, ticks, k).to_multiset() == s.to_multiset(),
    decreases k,
{
    if k > 0 {
        lemma_after_swaps_permutes(s, ticks, (k - 1) as nat);
        let i = s.len() - k;
        lemma_swapped_permutes(
            after_swaps(s, ticks, (k - 1) as nat),
            i,
            drawn_index(ticks[k - 1], i),
        );
    }
}

/// A shuffle is a permutation: for every input and every run of clock
/// readings, the shuffled sequence has the elements of the input, each as
/// often as the input has it.
pub proof fn lemma_shuffled_permutes<T>(s: Seq<T>, ticks: Seq<u128>)
    ensures
        shuffled(s, ticks).len() == s.len(),
        shuffled(s, ticks).to_multiset() == s.to_multiset(),
{
    lemma_after_swaps_permutes(s, ticks, swaps_needed(s.len()));
}

/// The first `k` swaps read only the first `k` clock readings.
pub proof fn lemma_after_swaps_reads_prefix<T>(
    s: Seq<T>,
    ticks: Seq<u128>,
    more: Seq<u128>,
    k: nat,
)
    requires
        k <= ticks.len(),
        ticks.len() <= more.len(),
        forall|n: int| 0 <= n < ticks.len() ==> ticks[n] == more[n],
    ensures
        after_swaps(s, ticks, k) == after_swaps(s, more, k),
    decreases k,
{
    if k > 0 {
        lemma_after_swaps_reads_prefix(s, ticks, more, (k - 1) as nat);
    }
}

/// Shuffles `items` in place with the given clock readings, one for each
/// swap, from the last position down to the second. Where `ticks` holds fewer
/// readings than the shuffle needs, the swaps stop when they are used up;
/// readings beyond the need are not read.
pub fn shuffle_with<T>(items: &mut [T], ticks: &[u128])
    ensures
        final(items)@ == after_swaps(
            old(items)@,
            ticks@,
            at_most(ticks@.len(), swaps_needed(old(items)@.len())),
        ),
        ticks@.len() >= swaps_needed(old(items)@.len()) ==> final(items)@ == shuffled(
            old(items)@,
            ticks@,
        ),
        final(items)@.len() == old(items)@.len(),
        final(items)@.to_multiset() == old(items)@.to_multiset(),
{
    let ghost start = items@;
    let len = items.len();
    let mut done: usize = 0;
    while done < ticks.len() && len - done > 1
        invariant
            len == start.len(),
            items@.len() == len,
            done <= ticks@.len(),
            done <= swaps_needed(start.len()),
            items@ == after_swaps(start, ticks@, done as nat),
        decreases len - done,
    {
        let i: usize = len - 1 - done;
        let j: usize = (#[verifier::truncate] (ticks[done] as usize)) % (i + 1);
        items.swap(i, j);
        done += 1;
    }
    proof {
        lemma_after_swaps_permutes(start, ticks@, done as nat);
    }
}

/// Shuffles `items` in place: for each position from the last down to the
/// second, the clock is read in nanoseconds and the element is exchanged with
/// the one at the position drawn from that reading. Swaps that fall within
/// one clock tick draw from the same reading. Where the clock cannot be
/// read, the swaps made so far stand and the rest are not made.
pub fn shuffle<T>(items: &mut [T]) -> (r: Result<(), ClockError>)
    ensures
        match r {
            Ok(_) => exists|ticks: Seq<u128>|
                ticks.len() == swaps_needed(old(items)@.len()) && final(items)@
                    == #[trigger] shuffled(old(items)@, ticks),
            Err(_) => exists|ticks: Seq<u128>|
                ticks.len() < swaps_needed(old(items)@.len()) && final(items)@
                    == #[trigger] after_swaps(old(items)@, ticks, ticks.len()),
        },
        final(items)@.len() == old(items)@.len(),
        final(items)@.to_multiset() == old(items)@.to_multiset(),
{
    let ghost start = items@;
    let ghost mut ticks: Seq<u128> = Seq::empty();
    let len = items.len();
    let mut done: usize = 0;
    while len - done > 1
        invariant
            start == old(items)@,
            len == start.len(),
            items@.len() == len,
            done == ticks.len(),
            done <= swaps_needed(start.len()),
            items@ == after_swaps(start, ticks, done as nat),
        decreases len - done,
    {
        let i: usize = len - 1 - done;
        match unix_nanos() {
            Ok(tick) => {
                let j: usize = (#[verifier::truncate] (tick as usize)) % (i + 1);
                proof {
                    lemma_after_swaps_reads_prefix(start, ticks, ticks.push(tick), done as nat);
                    ticks = ticks.push(tick);
                }
                items.swap(i, j);
                done += 1;
            },
            Err(e) => {
                proof {
                    lemma_after_swaps_permutes(start, ticks, done as nat);
                    assert(items@ == after_swaps(start, ticks, ticks.len()));
                }
                return Err(e);
            },
        }
    }
    proof {
        lemma_after_swaps_permutes(start, ticks, done as nat);
        assert(items@ == shuffled(start, ticks));
    }
    Ok(())
}

} // verus!
