//! Finite sums of integers, and the facts about them that the proofs of
//! conservation rest on.

use vstd::prelude::*;

verus! {

/// The sum of the numbers of `s`.
pub open spec fn sum(s: Seq<int>) -> int
    decreases s.len(),
{
    if s.len() == 0 {
        0
    } else {
        sum(s.drop_last()) + s.last()
    }
}

/// One more number adds to the sum.
pub proof fn lemma_sum_push(s: Seq<int>, x: int)
    ensures
        sum(s.push(x)) == sum(s) + x,
{
    assert(s.push(x).drop_last() =~= s);
}

/// The sum of two sequences, one after the other, is the sum of their sums.
pub proof fn lemma_sum_concat(a: Seq<int>, b: Seq<int>)
    ensures
        sum(a + b) == sum(a) + sum(b),
    decreases b.len(),
{
    if b.len() == 0 {
        assert(a + b =~= a);
    } else {
        lemma_sum_concat(a, b.drop_last());
        assert((a + b).drop_last() =~= a + b.drop_last());
    }
}

/// The sum of the first `n` numbers of `s`.
pub open spec fn prefix_sum(s: Seq<int>, n: int) -> int {
    sum(s.take(n))
}

/// The sum of the first `n + 1` numbers is that of the first `n` and the next.
pub proof fn lemma_prefix_sum_step(s: Seq<int>, n: int)
    requires
        0 <= n < s.len(),
    ensures
        prefix_sum(s, n + 1) == prefix_sum(s, n) + s[n],
        prefix_sum(s, 0) == 0,
{
    assert(s.take(n + 1).drop_last() =~= s.take(n));
    assert(s.take(0) =~= Seq::<int>::empty());
}

/// The sum of all numbers is the sum of the sequence; the sum of none is zero.
pub proof fn lemma_prefix_sum_full(s: Seq<int>)
    ensures
        prefix_sum(s, s.len() as int) == sum(s),
        prefix_sum(s, 0) == 0,
{
    assert(s.take(s.len() as int) =~= s);
    assert(s.take(0) =~= Seq::<int>::empty());
}

/// A sum of non-negative numbers is non-negative, and no smaller than the sum
/// of any of its prefixes or than any one of its numbers.
pub proof fn lemma_sum_nonnegative(s: Seq<int>)
    requires
        forall|i: int| 0 <= i < s.len() ==> 0 <= #[trigger] s[i],
    ensures
        0 <= sum(s),
        forall|i: int| 0 <= i < s.len() ==> #[trigger] s[i] <= sum(s),
        forall|n: int| 0 <= n <= s.len() ==> 0 <= #[trigger] prefix_sum(s, n) <= sum(s),
    decreases s.len(),
{
    if s.len() == 0 {
        assert forall|n: int| 0 <= n <= s.len() implies 0 <= #[trigger] prefix_sum(s, n) <= sum(
            s,
        ) by {
            assert(s.take(n) =~= s);
        }
    } else {
        let t = s.drop_last();
        lemma_sum_nonnegative(t);
        assert forall|i: int| 0 <= i < s.len() implies #[trigger] s[i] <= sum(s) by {
            if i < t.len() {
                assert(t[i] == s[i]);
            }
        }
        assert forall|n: int| 0 <= n <= s.len() implies 0 <= #[trigger] prefix_sum(s, n) <= sum(
            s,
        ) by {
            if n == s.len() {
                assert(s.take(n) =~= s);
            } else {
                assert(s.take(n) =~= t.take(n));
                assert(prefix_sum(t, n) <= sum(t));
            }
        }
    }
}

/// Sums of sequences that agree number by number agree.
pub proof fn lemma_sum_pointwise_le(a: Seq<int>, b: Seq<int>)
    requires
        a.len() == b.len(),
        forall|i: int| 0 <= i < a.len() ==> #[trigger] a[i] <= b[i],
    ensures
        sum(a) <= sum(b),
    decreases a.len(),
{
    if a.len() > 0 {
        lemma_sum_pointwise_le(a.drop_last(), b.drop_last());
    }
}

/// The sum of `c` where `c[i] == a[i] + b[i]`.
pub proof fn lemma_sum_of_sums(a: Seq<int>, b: Seq<int>, c: Seq<int>)
    requires
        a.len() == b.len(),
        a.len() == c.len(),
        forall|i: int| 0 <= i < a.len() ==> #[trigger] c[i] == a[i] + b[i],
    ensures
        sum(c) == sum(a) + sum(b),
    decreases a.len(),
{
    if a.len() > 0 {
        lemma_sum_of_sums(a.drop_last(), b.drop_last(), c.drop_last());
    }
}

/// The sum of `c` where `c[i] == a[i] - b[i]`.
pub proof fn lemma_sum_of_differences(a: Seq<int>, b: Seq<int>, c: Seq<int>)
    requires
        a.len() == b.len(),
        a.len() == c.len(),
        forall|i: int| 0 <= i < a.len() ==> #[trigger] c[i] == a[i] - b[i],
    ensures
        sum(c) == sum(a) - sum(b),
    decreases a.len(),
{
    if a.len() > 0 {
        lemma_sum_of_differences(a.drop_last(), b.drop_last(), c.drop_last());
    }
}

/// A sequence of zeros sums to zero.
pub proof fn lemma_sum_zeros(s: Seq<int>)
    requires
        forall|i: int| 0 <= i < s.len() ==> #[trigger] s[i] == 0,
    ensures
        sum(s) == 0,
    decreases s.len(),
{
    if s.len() > 0 {
        lemma_sum_zeros(s.drop_last());
    }
}

/// Replacing one number changes the sum by the difference.
pub proof fn lemma_sum_update(s: Seq<int>, i: int, x: int)
    requires
        0 <= i < s.len(),
    ensures
        sum(s.update(i, x)) == sum(s) - s[i] + x,
    decreases s.len(),
{
    if i == s.len() - 1 {
        assert(s.update(i, x).drop_last() =~= s.drop_last());
    } else {
        lemma_sum_update(s.drop_last(), i, x);
        assert(s.update(i, x).drop_last() =~= s.drop_last().update(i, x));
    }
}


/// Head counts as mathematical integers.
pub open spec fn counts(s: Seq<u64>) -> Seq<int> {
    Seq::new(s.len(), |i: int| s[i] as int)
}

/// Signed numbers as mathematical integers.
pub open spec fn signed(s: Seq<i64>) -> Seq<int> {
    Seq::new(s.len(), |i: int| s[i] as int)
}

} // verus!
