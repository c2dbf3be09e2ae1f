//! The mathematical model of a fixed-capacity sliding window, and the sums
//! that the engines keep over one.

use vstd::prelude::*;

verus! {

/// The window `w` of capacity `cap` after `v` arrives: when the window is
/// full its oldest entry leaves first.
pub open spec fn slide<T>(w: Seq<T>, cap: nat, v: T) -> Seq<T> {
    if w.len() >= cap && w.len() > 0 {
        w.skip(1).push(v)
    } else {
        w.push(v)
    }
}

/// The window of capacity `cap` that results from feeding `fed`, oldest
/// first, into an empty one.
pub open spec fn fed_window<T>(cap: nat, fed: Seq<T>) -> Seq<T>
    decreases fed.len(),
{
    if fed.len() == 0 {
        Seq::empty()
    } else {
        slide(fed_window(cap, fed.drop_last()), cap, fed.last())
    }
}

/// The sum of the entries of `s`.
pub open spec fn seq_sum(s: Seq<i32>) -> int
    decreases s.len(),
{
    if s.len() == 0 {
        0
    } else {
        seq_sum(s.drop_last()) + s.last()
    }
}

/// The sum of the squares of the entries of `s`.
pub open spec fn seq_sum_sq(s: Seq<i32>) -> int
    decreases s.len(),
{
    if s.len() == 0 {
        0
    } else {
        seq_sum_sq(s.drop_last()) + s.last() * s.last()
    }
}

/// A window never outgrows its capacity.
pub proof fn lemma_slide_len<T>(w: Seq<T>, cap: nat, v: T)
    requires
        cap >= 1,
        w.len() <= cap,
    ensures
        slide(w, cap, v).len() == if w.len() < cap { w.len() + 1 } else { cap },
        slide(w, cap, v).len() <= cap,
        slide(w, cap, v).len() >= 1,
        slide(w, cap, v).last() == v,
{
}

/// Feeding a window keeps it within its capacity; it holds every value fed
/// until it is full, and is full from then on.
pub proof fn lemma_fed_window_len<T>(cap: nat, fed: Seq<T>)
    requires
        cap >= 1,
    ensures
        fed_window(cap, fed).len() == if fed.len() < cap { fed.len() } else { cap },
    decreases fed.len(),
{
    if fed.len() > 0 {
        lemma_fed_window_len(cap, fed.drop_last());
        lemma_slide_len(fed_window(cap, fed.drop_last()), cap, fed.last());
    }
}

/// Appending an entry adds it to the sum and its square to the sum of squares.
pub proof fn lemma_sum_push(s: Seq<i32>, v: i32)
    ensures
        seq_sum(s.push(v)) == seq_sum(s) + v,
        seq_sum_sq(s.push(v)) == seq_sum_sq(s) + v * v,
{
    assert(s.push(v).drop_last() =~= s);
}

/// Dropping the oldest entry takes it out of the sum and its square out of
/// the sum of squares.
pub proof fn lemma_sum_skip_first(s: Seq<i32>)
    requires
        s.len() > 0,
    ensures
        seq_sum(s.skip(1)) == seq_sum(s) - s[0],
        seq_sum_sq(s.skip(1)) == seq_sum_sq(s) - s[0] * s[0],
    decreases s.len(),
{
    if s.len() == 1 {
        assert(s.skip(1) =~= Seq::<i32>::empty());
        assert(s.drop_last() =~= Seq::<i32>::empty());
    } else {
        lemma_sum_skip_first(s.drop_last());
        assert(s.skip(1).drop_last() =~= s.drop_last().skip(1));
        assert(s.drop_last()[0] == s[0]);
    }
}

/// Bounds on the two sums of a sequence of 32-bit entries.
pub proof fn lemma_sum_bounds(s: Seq<i32>)
    ensures
        -0x8000_0000 * s.len() <= seq_sum(s) <= 0x7FFF_FFFF * s.len(),
        0 <= seq_sum_sq(s) <= 0x4000_0000_0000_0000 * s.len(),
    decreases s.len(),
{
    if s.len() > 0 {
        lemma_sum_bounds(s.drop_last());
        let v = s.last();
        assert(0 <= v * v <= 0x4000_0000_0000_0000) by (nonlinear_arith)
            requires
                -0x8000_0000 <= v <= 0x7FFF_FFFF,
        ;
    }
}

/// The two sums of a sequence whose entries all equal `c`.
pub proof fn lemma_sum_constant(s: Seq<i32>, c: i32)
    requires
        forall|i: int| 0 <= i < s.len() ==> s[i] == c,
    ensures
        seq_sum(s) == s.len() * c,
        seq_sum_sq(s) == s.len() * (c * c),
    decreases s.len(),
{
    if s.len() > 0 {
        lemma_sum_constant(s.drop_last(), c);
        let n = s.len() as int;
        assert((n - 1) * c + c == n * c) by (nonlinear_arith);
        assert((n - 1) * (c * c) + c * c == n * (c * c)) by (nonlinear_arith);
    }
}

/// A window fed with equal values holds nothing else.
pub proof fn lemma_fed_window_constant<T>(cap: nat, fed: Seq<T>, c: T)
    requires
        forall|i: int| 0 <= i < fed.len() ==> fed[i] == c,
    ensures
        forall|i: int| 0 <= i < fed_window(cap, fed).len() ==> fed_window(cap, fed)[i] == c,
    decreases fed.len(),
{
    if fed.len() > 0 {
        lemma_fed_window_constant(cap, fed.drop_last(), c);
        let before = fed_window(cap, fed.drop_last());
        let after = fed_window(cap, fed);
        assert(fed.last() == c);
        assert forall|i: int| 0 <= i < after.len() implies after[i] == c by {
            if before.len() >= cap && before.len() > 0 {
                if i < after.len() - 1 {
                    assert(after[i] == before[i + 1]);
                }
            } else {
                if i < after.len() - 1 {
                    assert(after[i] == before[i]);
                }
            }
        }
    }
}

} // verus!
