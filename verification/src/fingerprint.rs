//! The change fingerprint: a cheap, order-independent 64-bit summary of
//! per-source change signals (last-write times truncated to coarse
//! granularity). Plain summation is the design's stated trade-off: it is
//! cheap and commutative, not collision-free.

use vstd::prelude::*;
use vstd::arithmetic::div_mod::{
    lemma_add_mod_noop, lemma_fundamental_div_mod_converse, lemma_mod_bound, lemma_mod_equivalence,
    lemma_small_mod,
};

verus! {

/// One more than `u64::MAX`: the modulus of 64-bit wrapping arithmetic.
pub open spec fn wrap_modulus() -> int {
    0x1_0000_0000_0000_0000
}

/// The sum of the signals as an unbounded integer.
pub open spec fn signal_sum(s: Seq<u64>) -> int
    decreases s.len(),
{
    if s.len() == 0 {
        0
    } else {
        signal_sum(s.drop_last()) + s.last()
    }
}

/// The fingerprint of a source set: the sum of its change signals, reduced
/// to 64 bits. Summation is commutative, so enumeration order never affects
/// the result.
pub open spec fn fingerprint_of(s: Seq<u64>) -> u64 {
    (signal_sum(s) % wrap_modulus()) as u64
}

/// Sum the change signals with 64-bit wrapping addition. A source that could
/// not be examined contributes a zero signal and so leaves the sum unchanged.
pub fn compute_fingerprint(signals: &Vec<u64>) -> (r: u64)
    ensures
        r == fingerprint_of(signals@),
{
    let mut acc: u64 = 0;
    let mut i: usize = 0;
    proof {
        assert(signals@.take(0) =~= Seq::<u64>::empty());
    }
    while i < signals.len()
        invariant
            i <= signals@.len(),
            acc == fingerprint_of(signals@.take(i as int)),
        decreases signals@.len() - i,
    {
        let x = signals[i];
        proof {
            let m = wrap_modulus();
            let sum_i = signal_sum(signals@.take(i as int));
            assert(signals@.take(i + 1).drop_last() =~= signals@.take(i as int));
            assert(signals@.take(i + 1).last() == x);
            lemma_signal_sum_nonneg(signals@.take(i as int));
            lemma_mod_bound(sum_i, m);
            lemma_small_mod(x as nat, m as nat);
            lemma_add_mod_noop(sum_i, x as int, m);
            if acc + x > u64::MAX {
                lemma_fundamental_div_mod_converse(acc + x, m, 1, acc + x - m);
            } else {
                lemma_small_mod((acc + x) as nat, m as nat);
            }
        }
        acc = acc.wrapping_add(x);
        i += 1;
    }
    proof {
        assert(signals@.take(signals@.len() as int) =~= signals@);
    }
    acc
}

/// The change signal of one source: its last-write time truncated to whole
/// minutes. The truncation is the design's stated cost/accuracy trade-off —
/// a change within the same minute can go unseen.
pub fn minute_signal(last_write_secs: u64) -> (r: u64)
    ensures
        r == last_write_secs / 60,
{
    last_write_secs / 60
}

/// The sum of unsigned signals is never negative.
proof fn lemma_signal_sum_nonneg(s: Seq<u64>)
    ensures
        signal_sum(s) >= 0,
    decreases s.len(),
{
    if s.len() > 0 {
        lemma_signal_sum_nonneg(s.drop_last());
    }
}

/// Removing one element takes exactly its value out of the sum.
proof fn lemma_signal_sum_remove(s: Seq<u64>, i: int)
    requires
        0 <= i < s.len(),
    ensures
        signal_sum(s) == signal_sum(s.remove(i)) + s[i],
    decreases s.len(),
{
    if i == s.len() - 1 {
        assert(s.remove(i) =~= s.drop_last());
    } else {
        lemma_signal_sum_remove(s.drop_last(), i);
        assert(s.remove(i).drop_last() =~= s.drop_last().remove(i));
        assert(s.remove(i).last() == s.last());
    }
}

proof fn lemma_signal_sum_permutation(s1: Seq<u64>, s2: Seq<u64>)
    requires
        s1.to_multiset() == s2.to_multiset(),
    ensures
        signal_sum(s1) == signal_sum(s2),
    decreases s1.len(),
{
    broadcast use vstd::seq_lib::group_to_multiset_ensures;

    assert(s1.to_multiset().len() == s1.len());
    assert(s2.to_multiset().len() == s2.len());
    if s1.len() == 0 {
        assert(s2.len() == 0);
    } else {
        let i = s1.len() - 1;
        let x = s1.last();
        assert(s1.contains(x));
        assert(s1.to_multiset().count(x) > 0);
        assert(s2.to_multiset().count(x) > 0);
        assert(s2.contains(x));
        let j = choose|j: int| 0 <= j < s2.len() && s2[j] == x;
        lemma_signal_sum_remove(s1, i);
        lemma_signal_sum_remove(s2, j);
        assert(s1.remove(i).to_multiset() == s1.to_multiset().remove(x));
        assert(s2.remove(j).to_multiset() == s2.to_multiset().remove(x));
        lemma_signal_sum_permutation(s1.remove(i), s2.remove(j));
    }
}

/// Law: the fingerprint is order-independent — any two enumerations of the
/// same multiset of change signals produce the same fingerprint.
pub proof fn lemma_fingerprint_order_independent(s1: Seq<u64>, s2: Seq<u64>)
    requires
        s1.to_multiset() == s2.to_multiset(),
    ensures
        fingerprint_of(s1) == fingerprint_of(s2),
{
    lemma_signal_sum_permutation(s1, s2);
}

/// Law: changing the change signal of exactly one source changes the
/// fingerprint; leaving every signal untouched preserves it (the fingerprint
/// is a function of the signals alone).
pub proof fn lemma_fingerprint_detects_single_change(s: Seq<u64>, i: int, v: u64)
    requires
        0 <= i < s.len(),
        v != s[i],
    ensures
        fingerprint_of(s.update(i, v)) != fingerprint_of(s),
{
    let m = wrap_modulus();
    let su = s.update(i, v);
    assert(su.remove(i) =~= s.remove(i));
    lemma_signal_sum_remove(su, i);
    lemma_signal_sum_remove(s, i);
    let a = signal_sum(su);
    let b = signal_sum(s);
    assert(a - b == v - s[i]);
    lemma_mod_bound(a, m);
    lemma_mod_bound(b, m);
    if a % m == b % m {
        lemma_mod_equivalence(a, b, m);
        assert((a - b) % m == 0);
        if v > s[i] {
            lemma_small_mod((v - s[i]) as nat, m as nat);
        } else {
            lemma_fundamental_div_mod_converse(a - b, m, -1, a - b + m);
        }
        assert(false);
    }
}

} // verus!
