//! Summary statistics over a log of cycle latencies.
//!
//! Percentiles are taken by nearest rank: the entry at index
//! `len * p / 100` of the log in ascending order, with no interpolation.

use vstd::prelude::*;
use vstd::seq_lib::{lemma_sorted_unique, to_multiset_build};
use crate::fixed::{lemma_scaled_quotient_fits, scaled_quotient, SCALE};

verus! {

/// Whether `s` is in ascending order.
pub open spec fn ascending(s: Seq<u64>) -> bool {
    forall|i: int, j: int| 0 <= i < j < s.len() ==> s[i] <= s[j]
}

/// Whether `s` holds the entries of `log` in ascending order.
pub open spec fn is_sorted_copy(log: Seq<u64>, s: Seq<u64>) -> bool {
    &&& ascending(s)
    &&& s.to_multiset() == log.to_multiset()
}

/// The entries of `log` in ascending order.
pub open spec fn sorted_log(log: Seq<u64>) -> Seq<u64> {
    log.sort_by(|a: u64, b: u64| a <= b)
}

/// The index into the ascending log at which the `pct`-th percentile lies.
pub open spec fn rank_index(len: nat, pct: nat) -> nat {
    len * pct / 100
}

/// The `pct`-th percentile of a non-empty log.
pub open spec fn percentile(log: Seq<u64>, pct: nat) -> u64 {
    sorted_log(log)[rank_index(log.len(), pct) as int]
}

/// The sum of the entries of `log`.
pub open spec fn log_sum(log: Seq<u64>) -> nat
    decreases log.len(),
{
    if log.len() == 0 {
        0
    } else {
        log_sum(log.drop_last()) + log.last() as nat
    }
}

/// The statistics of a latency log. Latencies are whole microseconds; the
/// mean is in millionths of one.
#[derive(Debug, Clone, Copy, PartialEq, Eq, Structural)]
pub struct LatencySummary {
    pub count: usize,
    pub mean: u128,
    pub min: u64,
    pub max: u64,
    pub p50: u64,
    pub p95: u64,
    pub p99: u64,
}

/// The statistics of `log`; all zero for an empty log.
pub open spec fn summary_of(log: Seq<u64>) -> LatencySummary {
    if log.len() == 0 {
        LatencySummary { count: 0, mean: 0, min: 0, max: 0, p50: 0, p95: 0, p99: 0 }
    } else {
        LatencySummary {
            count: log.len() as usize,
            mean: (log_sum(log) * SCALE / (log.len() as int)) as u128,
            min: sorted_log(log)[0],
            max: sorted_log(log)[log.len() - 1],
            p50: percentile(log, 50),
            p95: percentile(log, 95),
            p99: percentile(log, 99),
        }
    }
}

proof fn lemma_order_is_total()
    ensures
        vstd::relations::total_ordering(|a: u64, b: u64| a <= b),
{
}

/// `sorted_log` holds the entries of the log in ascending order.
pub proof fn lemma_sorted_log(log: Seq<u64>)
    ensures
        is_sorted_copy(log, sorted_log(log)),
        sorted_log(log).len() == log.len(),
{
    let leq = |a: u64, b: u64| a <= b;
    lemma_order_is_total();
    log.lemma_sort_by_ensures(leq);
    let s = sorted_log(log);
    assert(ascending(s)) by {
        assert(vstd::relations::sorted_by(s, leq));
        assert forall|i: int, j: int| 0 <= i < j < s.len() implies s[i] <= s[j] by {
            assert(leq(s[i], s[j]));
        }
    }
    s.to_multiset_ensures();
    log.to_multiset_ensures();
}

/// There is one ascending arrangement of a log.
pub proof fn lemma_sorted_copy_unique(log: Seq<u64>, s: Seq<u64>)
    requires
        is_sorted_copy(log, s),
    ensures
        s == sorted_log(log),
{
    let leq = |a: u64, b: u64| a <= b;
    lemma_order_is_total();
    lemma_sorted_log(log);
    let t = sorted_log(log);
    assert(vstd::relations::sorted_by(s, leq)) by {
        assert forall|i: int, j: int| 0 <= i < j < s.len() implies #[trigger] leq(s[i], s[j]) by {}
    }
    assert(vstd::relations::sorted_by(t, leq)) by {
        assert forall|i: int, j: int| 0 <= i < j < t.len() implies #[trigger] leq(t[i], t[j]) by {}
    }
    lemma_sorted_unique(s, t, leq);
}

/// The ranks of the three percentiles lie in this order within the log.
pub proof fn lemma_rank_order(len: nat)
    requires
        len > 0,
    ensures
        rank_index(len, 50) <= rank_index(len, 95) <= rank_index(len, 99) <= len - 1,
        rank_index(len, 50) == len / 2,
{
}

/// For any non-empty latency log the percentiles are ordered:
/// min ≤ p50 ≤ p95 ≤ p99 ≤ max.
pub proof fn lemma_percentiles_ordered(log: Seq<u64>)
    requires
        log.len() > 0,
    ensures
        summary_of(log).min <= summary_of(log).p50,
        summary_of(log).p50 <= summary_of(log).p95,
        summary_of(log).p95 <= summary_of(log).p99,
        summary_of(log).p99 <= summary_of(log).max,
{
    lemma_sorted_log(log);
    lemma_rank_order(log.len());
}

/// A sequence joined to another holds the entries of both.
proof fn lemma_joined_entries(a: Seq<u64>, b: Seq<u64>)
    ensures
        (a + b).to_multiset() == a.to_multiset().add(b.to_multiset()),
    decreases b.len(),
{
    broadcast use vstd::multiset::group_multiset_axioms;

    if b.len() == 0 {
        assert(a + b =~= a);
        b.to_multiset_ensures();
        assert(a.to_multiset().add(b.to_multiset()) =~= a.to_multiset());
    } else {
        lemma_joined_entries(a, b.drop_last());
        assert(a + b =~= (a + b.drop_last()).push(b.last()));
        assert(b =~= b.drop_last().push(b.last()));
        to_multiset_build(a + b.drop_last(), b.last());
        to_multiset_build(b.drop_last(), b.last());
        assert((a + b).to_multiset() =~= a.to_multiset().add(b.to_multiset()));
    }
}

/// The entries of two ascending vectors in one ascending vector.
fn merged(left: &Vec<u64>, right: &Vec<u64>) -> (out: Vec<u64>)
    requires
        ascending(left@),
        ascending(right@),
    ensures
        ascending(out@),
        out@.to_multiset() == left@.to_multiset().add(right@.to_multiset()),
{
    let mut out: Vec<u64> = Vec::new();
    let mut i: usize = 0;
    let mut j: usize = 0;
    proof {
        broadcast use vstd::multiset::group_multiset_axioms;

        let none = Seq::<u64>::empty();
        none.to_multiset_ensures();
        assert(left@.take(0) =~= none);
        assert(right@.take(0) =~= none);
        assert(out@ =~= none);
        assert forall|v: u64| none.to_multiset().count(v) == 0 by {
            assert(!none.contains(v));
        }
        assert(none.to_multiset() =~= none.to_multiset().add(none.to_multiset()));
    }
    while i < left.len() || j < right.len()
        invariant
            i <= left@.len(),
            j <= right@.len(),
            ascending(left@),
            ascending(right@),
            ascending(out@),
            out@.to_multiset() == left@.take(i as int).to_multiset().add(
                right@.take(j as int).to_multiset(),
            ),
            forall|k: int| 0 <= k < out@.len() && i < left@.len() ==> out@[k] <= left@[i as int],
            forall|k: int| 0 <= k < out@.len() && j < right@.len() ==> out@[k] <= right@[j as int],
        decreases left@.len() - i + right@.len() - j,
    {
        if j >= right.len() || (i < left.len() && left[i] <= right[j]) {
            proof {
                assert(left@.take(i + 1) =~= left@.take(i as int).push(left@[i as int]));
                to_multiset_build(left@.take(i as int), left@[i as int]);
                to_multiset_build(out@, left@[i as int]);
                assert(out@.push(left@[i as int]).to_multiset() =~= left@.take(
                    i + 1,
                ).to_multiset().add(right@.take(j as int).to_multiset()));
            }
            out.push(left[i]);
            i = i + 1;
        } else {
            proof {
                assert(right@.take(j + 1) =~= right@.take(j as int).push(right@[j as int]));
                to_multiset_build(right@.take(j as int), right@[j as int]);
                to_multiset_build(out@, right@[j as int]);
                assert(out@.push(right@[j as int]).to_multiset() =~= left@.take(
                    i as int,
                ).to_multiset().add(right@.take(j + 1).to_multiset()));
            }
            out.push(right[j]);
            j = j + 1;
        }
    }
    assert(left@.take(i as int) =~= left@);
    assert(right@.take(j as int) =~= right@);
    out
}

/// The entries of `log` from `from` up to `to` in ascending order.
fn sorted_range(log: &Vec<u64>, from: usize, to: usize) -> (sorted: Vec<u64>)
    requires
        from <= to <= log@.len(),
    ensures
        is_sorted_copy(log@.subrange(from as int, to as int), sorted@),
    decreases to - from,
{
    if to - from <= 1 {
        let mut sorted: Vec<u64> = Vec::new();
        if from < to {
            sorted.push(log[from]);
        }
        assert(sorted@ =~= log@.subrange(from as int, to as int));
        sorted
    } else {
        let middle = from + (to - from) / 2;
        let left = sorted_range(log, from, middle);
        let right = sorted_range(log, middle, to);
        proof {
            lemma_joined_entries(
                log@.subrange(from as int, middle as int),
                log@.subrange(middle as int, to as int),
            );
            assert(log@.subrange(from as int, middle as int) + log@.subrange(
                middle as int,
                to as int,
            ) =~= log@.subrange(from as int, to as int));
        }
        merged(&left, &right)
    }
}

/// A copy of `log` in ascending order.
pub fn sorted_copy(log: &Vec<u64>) -> (sorted: Vec<u64>)
    ensures
        sorted@ == sorted_log(log@),
        is_sorted_copy(log@, sorted@),
        sorted@.len() == log@.len(),
{
    let sorted = sorted_range(log, 0, log.len());
    proof {
        assert(log@.subrange(0, log@.len() as int) =~= log@);
        lemma_sorted_copy_unique(log@, sorted@);
        lemma_sorted_log(log@);
    }
    sorted
}

/// The sum of the entries of `log`.
fn sum_of(log: &Vec<u64>) -> (total: u128)
    ensures
        total == log_sum(log@),
        total <= log@.len() * 0xFFFF_FFFF_FFFF_FFFF,
{
    let mut total: u128 = 0;
    let mut i: usize = 0;
    while i < log.len()
        invariant
            i <= log@.len(),
            total == log_sum(log@.take(i as int)),
            total <= i * 0xFFFF_FFFF_FFFF_FFFF,
        decreases log@.len() - i,
    {
        assert(log@.take(i + 1).drop_last() =~= log@.take(i as int));
        total = total + log[i] as u128;
        i = i + 1;
    }
    assert(log@.take(log@.len() as int) =~= log@);
    total
}

/// The entry of the ascending log at the rank of the `pct`-th percentile.
fn at_rank(sorted: &Vec<u64>, pct: u128) -> (value: u64)
    requires
        sorted@.len() > 0,
        pct < 100,
    ensures
        value == sorted@[rank_index(sorted@.len(), pct as nat) as int],
{
    let len: u128 = sorted.len() as u128;
    assert(len * pct <= 0xFFFF_FFFF_FFFF_FFFF * 100 && len * pct / 100 < len) by (nonlinear_arith)
        requires
            0 < len <= 0xFFFF_FFFF_FFFF_FFFF,
            0 <= pct < 100,
    ;
    let index: u128 = len * pct / 100;
    sorted[index as usize]
}

/// The count, mean, extremes and nearest-rank percentiles of a latency
/// log. The log itself is left as it is: a copy is sorted.
pub fn summarize(log: &Vec<u64>) -> (summary: LatencySummary)
    ensures
        summary == summary_of(log@),
{
    let len = log.len();
    if len == 0 {
        return LatencySummary { count: 0, mean: 0, min: 0, max: 0, p50: 0, p95: 0, p99: 0 };
    }
    let sorted = sorted_copy(log);
    let total = sum_of(log);
    proof {
        lemma_scaled_quotient_fits(total as int, len as int);
    }
    LatencySummary {
        count: len,
        mean: scaled_quotient(total, len as u128),
        min: sorted[0],
        max: sorted[len - 1],
        p50: at_rank(&sorted, 50),
        p95: at_rank(&sorted, 95),
        p99: at_rank(&sorted, 99),
    }
}

} // verus!
