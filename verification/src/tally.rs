//! Sums and counts over sequences, saturating at `u64::MAX` as the wallet's
//! running totals do.
use vstd::prelude::*;

verus! {

/// `x` capped at `u64::MAX` (and at 0 from below).
pub open spec fn sat_u64(x: int) -> u64 {
    if x > u64::MAX {
        u64::MAX
    } else if x < 0 {
        0
    } else {
        x as u64
    }
}

/// The sum of `f` over `s`.
pub open spec fn sum_of<A>(s: Seq<A>, f: spec_fn(A) -> int) -> int
    decreases s.len(),
{
    if s.len() == 0 {
        0
    } else {
        sum_of(s.drop_last(), f) + f(s.last())
    }
}

/// How many items of `s` satisfy `p`.
pub open spec fn count_of<A>(s: Seq<A>, p: spec_fn(A) -> bool) -> int
    decreases s.len(),
{
    if s.len() == 0 {
        0
    } else {
        count_of(s.drop_last(), p) + if p(s.last()) {
            1int
        } else {
            0int
        }
    }
}

/// Adding a non-negative number to a capped sum caps the larger sum.
pub proof fn lemma_sat_step(total: int, x: int)
    requires
        total >= 0,
        0 <= x <= u64::MAX,
    ensures
        (if sat_u64(total) + x > u64::MAX {
            u64::MAX
        } else {
            (sat_u64(total) + x) as u64
        }) == sat_u64(total + x),
{
}

/// A sum over a prefix extends by the next item.
pub proof fn lemma_sum_of_push<A>(s: Seq<A>, i: int, f: spec_fn(A) -> int)
    requires
        0 <= i < s.len(),
    ensures
        sum_of(s.take(i + 1), f) == sum_of(s.take(i), f) + f(s[i]),
{
    assert(s.take(i + 1).drop_last() =~= s.take(i));
}

/// A count over a prefix extends by the next item.
pub proof fn lemma_count_of_push<A>(s: Seq<A>, i: int, p: spec_fn(A) -> bool)
    requires
        0 <= i < s.len(),
    ensures
        count_of(s.take(i + 1), p) == count_of(s.take(i), p) + if p(s[i]) {
            1int
        } else {
            0int
        },
{
    assert(s.take(i + 1).drop_last() =~= s.take(i));
}

/// Sums of non-negative terms are non-negative.
pub proof fn lemma_sum_of_nonneg<A>(s: Seq<A>, f: spec_fn(A) -> int)
    requires
        forall|a: A| #[trigger] f(a) >= 0,
    ensures
        sum_of(s, f) >= 0,
    decreases s.len(),
{
    if s.len() > 0 {
        lemma_sum_of_nonneg(s.drop_last(), f);
    }
}

/// A count is at most the length.
pub proof fn lemma_count_of_bound<A>(s: Seq<A>, p: spec_fn(A) -> bool)
    ensures
        0 <= count_of(s, p) <= s.len(),
    decreases s.len(),
{
    if s.len() > 0 {
        lemma_count_of_bound(s.drop_last(), p);
    }
}

/// The sum over a whole sequence splits along a partition by `p`.
pub proof fn lemma_sum_of_split<A>(s: Seq<A>, f: spec_fn(A) -> int, p: spec_fn(A) -> bool)
    ensures
        sum_of(s, f) == sum_of(s, |a: A| if p(a) { f(a) } else { 0 }) + sum_of(
            s,
            |a: A| if p(a) { 0 } else { f(a) },
        ),
    decreases s.len(),
{
    if s.len() > 0 {
        lemma_sum_of_split(s.drop_last(), f, p);
    }
}

/// A sum of pointwise sums is the sum of the sums.
pub proof fn lemma_sum_of_add<A>(
    s: Seq<A>,
    f: spec_fn(A) -> int,
    g: spec_fn(A) -> int,
    h: spec_fn(A) -> int,
)
    requires
        forall|a: A| #[trigger] h(a) == f(a) + g(a),
    ensures
        sum_of(s, h) == sum_of(s, f) + sum_of(s, g),
    decreases s.len(),
{
    if s.len() > 0 {
        lemma_sum_of_add(s.drop_last(), f, g, h);
    }
}

/// Sums of terms that agree position by position are equal.
pub proof fn lemma_sum_of_pointwise<A, B>(s: Seq<A>, t: Seq<B>, f: spec_fn(A) -> int, g: spec_fn(B) -> int)
    requires
        s.len() == t.len(),
        forall|i: int| 0 <= i < s.len() ==> f(#[trigger] s[i]) == g(t[i]),
    ensures
        sum_of(s, f) == sum_of(t, g),
    decreases s.len(),
{
    if s.len() > 0 {
        let n = s.len() - 1;
        assert(f(s[n]) == g(t[n]));
        assert forall|i: int| 0 <= i < s.drop_last().len() implies f(#[trigger] s.drop_last()[i]) == g(
            t.drop_last()[i],
        ) by {
            assert(s.drop_last()[i] == s[i]);
            assert(t.drop_last()[i] == t[i]);
        }
        lemma_sum_of_pointwise(s.drop_last(), t.drop_last(), f, g);
    }
}

/// Counts of conditions that agree position by position are equal.
pub proof fn lemma_count_of_pointwise<A, B>(s: Seq<A>, t: Seq<B>, p: spec_fn(A) -> bool, q: spec_fn(B) -> bool)
    requires
        s.len() == t.len(),
        forall|i: int| 0 <= i < s.len() ==> p(#[trigger] s[i]) == q(t[i]),
    ensures
        count_of(s, p) == count_of(t, q),
    decreases s.len(),
{
    if s.len() > 0 {
        let n = s.len() - 1;
        assert(p(s[n]) == q(t[n]));
        assert forall|i: int| 0 <= i < s.drop_last().len() implies p(#[trigger] s.drop_last()[i]) == q(
            t.drop_last()[i],
        ) by {
            assert(s.drop_last()[i] == s[i]);
            assert(t.drop_last()[i] == t[i]);
        }
        lemma_count_of_pointwise(s.drop_last(), t.drop_last(), p, q);
    }
}

} // verus!
