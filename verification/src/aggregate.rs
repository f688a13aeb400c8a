//! Sums over the parts of a distribution, and the corpus-wide aggregates
//! defined by them.

use vstd::prelude::*;
use vstd::seq_lib::{to_multiset_contains, to_multiset_len, to_multiset_remove};
use crate::observation::PartObservation;

verus! {

/// The sum of `term` over the observations of `parts`.
pub open spec fn sum_of(parts: Seq<PartObservation>, term: spec_fn(PartObservation) -> int) -> int
    decreases parts.len(),
{
    if parts.len() == 0 {
        0
    } else {
        sum_of(parts.drop_last(), term) + term(parts.last())
    }
}

/// The term that counts an observation's occurrences.
pub open spec fn frequency_term() -> spec_fn(PartObservation) -> int {
    |p: PartObservation| p.frequency as int
}

/// The term that counts an observation's tokens.
pub open spec fn size_term() -> spec_fn(PartObservation) -> int {
    |p: PartObservation| p.size as int
}

/// The term that counts an observation if its part has a positive size.
pub open spec fn presence_term() -> spec_fn(PartObservation) -> int {
    |p: PartObservation| if p.size > 0 { 1int } else { 0int }
}

/// The term that counts an observation if the unit occurs in its part.
pub open spec fn occurrence_term() -> spec_fn(PartObservation) -> int {
    |p: PartObservation| if p.frequency > 0 { 1int } else { 0int }
}

/// Occurrences of the unit in the whole corpus.
pub open spec fn total_frequency(parts: Seq<PartObservation>) -> int {
    sum_of(parts, frequency_term())
}

/// Size of the whole corpus.
pub open spec fn total_size(parts: Seq<PartObservation>) -> int {
    sum_of(parts, size_term())
}

/// Number of parts that have a positive size.
pub open spec fn num_parts(parts: Seq<PartObservation>) -> int {
    sum_of(parts, presence_term())
}

/// The range: the number of parts in which the unit occurs at least once.
pub open spec fn range_of(parts: Seq<PartObservation>) -> int {
    sum_of(parts, occurrence_term())
}

/// Extending a prefix by one observation adds that observation's term.
pub proof fn lemma_sum_of_prefix_step(
    parts: Seq<PartObservation>,
    term: spec_fn(PartObservation) -> int,
    i: int,
)
    requires
        0 <= i < parts.len(),
    ensures
        sum_of(parts.take(i + 1), term) == sum_of(parts.take(i), term) + term(parts[i]),
{
    assert(parts.take(i + 1).drop_last() =~= parts.take(i));
}

/// A sum lies between the bounds of its terms, taken once per observation.
pub proof fn lemma_sum_of_bounds(
    parts: Seq<PartObservation>,
    term: spec_fn(PartObservation) -> int,
    low: int,
    high: int,
)
    requires
        forall|i: int| 0 <= i < parts.len() ==> low <= term(#[trigger] parts[i]) <= high,
    ensures
        parts.len() * low <= sum_of(parts, term) <= parts.len() * high,
    decreases parts.len(),
{
    if parts.len() > 0 {
        let rest = parts.drop_last();
        assert forall|i: int| 0 <= i < rest.len() implies low <= term(#[trigger] rest[i])
            <= high by {
            assert(rest[i] == parts[i]);
        }
        lemma_sum_of_bounds(rest, term, low, high);
        let n = parts.len() as int;
        assert((n - 1) * low + low == n * low) by (nonlinear_arith);
        assert((n - 1) * high + high == n * high) by (nonlinear_arith);
    }
}

/// With terms that are never negative, a prefix sums to no more than the
/// whole.
pub proof fn lemma_sum_of_prefix_le(
    parts: Seq<PartObservation>,
    term: spec_fn(PartObservation) -> int,
    i: int,
)
    requires
        0 <= i <= parts.len(),
        forall|k: int| 0 <= k < parts.len() ==> 0 <= term(#[trigger] parts[k]),
    ensures
        0 <= sum_of(parts.take(i), term) <= sum_of(parts, term),
    decreases parts.len() - i,
{
    if i == parts.len() {
        assert(parts.take(i) =~= parts);
        lemma_sum_of_nonnegative(parts, term);
    } else {
        lemma_sum_of_prefix_le(parts, term, i + 1);
        lemma_sum_of_prefix_step(parts, term, i);
        lemma_sum_of_nonnegative(parts.take(i), term);
    }
}

/// With terms that are never negative, the sum is not negative.
pub proof fn lemma_sum_of_nonnegative(
    parts: Seq<PartObservation>,
    term: spec_fn(PartObservation) -> int,
)
    requires
        forall|k: int| 0 <= k < parts.len() ==> 0 <= term(#[trigger] parts[k]),
    ensures
        0 <= sum_of(parts, term),
    decreases parts.len(),
{
    if parts.len() > 0 {
        let rest = parts.drop_last();
        assert forall|k: int| 0 <= k < rest.len() implies 0 <= term(#[trigger] rest[k]) by {
            assert(rest[k] == parts[k]);
        }
        lemma_sum_of_nonnegative(rest, term);
    }
}

/// With terms that are never negative, the sum is zero exactly when every
/// term is.
pub proof fn lemma_sum_of_zero(parts: Seq<PartObservation>, term: spec_fn(PartObservation) -> int)
    requires
        forall|k: int| 0 <= k < parts.len() ==> 0 <= term(#[trigger] parts[k]),
    ensures
        sum_of(parts, term) == 0 <==> forall|k: int|
            0 <= k < parts.len() ==> term(#[trigger] parts[k]) == 0,
    decreases parts.len(),
{
    if parts.len() > 0 {
        let rest = parts.drop_last();
        assert forall|k: int| 0 <= k < rest.len() implies 0 <= term(#[trigger] rest[k]) by {
            assert(rest[k] == parts[k]);
        }
        lemma_sum_of_zero(rest, term);
        lemma_sum_of_nonnegative(rest, term);
        assert(0 <= term(parts[parts.len() - 1]));
        if sum_of(parts, term) == 0 {
            assert forall|k: int| 0 <= k < parts.len() implies term(#[trigger] parts[k])
                == 0 by {
                if k < rest.len() {
                    assert(rest[k] == parts[k]);
                }
            }
        }
        if forall|k: int| 0 <= k < parts.len() ==> term(#[trigger] parts[k]) == 0 {
            assert forall|k: int| 0 <= k < rest.len() implies term(#[trigger] rest[k]) == 0 by {
                assert(rest[k] == parts[k]);
            }
            assert(term(parts[parts.len() - 1]) == 0);
        }
    }
}

/// The sum of a term that is a combination of two others is the same
/// combination of their sums.
pub proof fn lemma_sum_of_combination(
    parts: Seq<PartObservation>,
    combined: spec_fn(PartObservation) -> int,
    first: spec_fn(PartObservation) -> int,
    second: spec_fn(PartObservation) -> int,
    a: int,
    b: int,
)
    requires
        forall|k: int|
            0 <= k < parts.len() ==> combined(#[trigger] parts[k]) == a * first(parts[k]) + b
                * second(parts[k]),
    ensures
        sum_of(parts, combined) == a * sum_of(parts, first) + b * sum_of(parts, second),
    decreases parts.len(),
{
    if parts.len() > 0 {
        let rest = parts.drop_last();
        let p = parts[parts.len() - 1];
        assert forall|k: int| 0 <= k < rest.len() implies combined(#[trigger] rest[k]) == a
            * first(rest[k]) + b * second(rest[k]) by {
            assert(rest[k] == parts[k]);
        }
        lemma_sum_of_combination(rest, combined, first, second, a, b);
        let sf = sum_of(rest, first);
        let ss = sum_of(rest, second);
        let pf = first(p);
        let ps = second(p);
        assert(a * (sf + pf) + b * (ss + ps) == (a * sf + b * ss) + (a * pf + b * ps))
            by (nonlinear_arith);
    } else {
        assert(a * 0 + b * 0 == 0);
    }
}

/// Taking one observation out of the sequence takes its term out of the sum.
pub proof fn lemma_sum_of_remove(
    parts: Seq<PartObservation>,
    term: spec_fn(PartObservation) -> int,
    i: int,
)
    requires
        0 <= i < parts.len(),
    ensures
        sum_of(parts, term) == sum_of(parts.remove(i), term) + term(parts[i]),
    decreases parts.len(),
{
    if i == parts.len() - 1 {
        assert(parts.remove(i) =~= parts.drop_last());
    } else {
        let rest = parts.drop_last();
        lemma_sum_of_remove(rest, term, i);
        assert(parts.remove(i).drop_last() =~= rest.remove(i));
        assert(parts.remove(i).last() == parts.last());
    }
}

/// A sum depends on which observations there are and how often each occurs,
/// not on their order.
pub proof fn lemma_sum_of_permutation(
    a: Seq<PartObservation>,
    b: Seq<PartObservation>,
    term: spec_fn(PartObservation) -> int,
)
    requires
        a.to_multiset() == b.to_multiset(),
    ensures
        sum_of(a, term) == sum_of(b, term),
    decreases a.len(),
{
    to_multiset_len(a);
    to_multiset_len(b);
    if a.len() > 0 {
        let last = a.len() - 1;
        let x = a[last];
        to_multiset_contains(a, x);
        to_multiset_contains(b, x);
        assert(a.contains(x));
        let j = choose|j: int| 0 <= j < b.len() && b[j] == x;
        to_multiset_remove(a, last);
        to_multiset_remove(b, j);
        assert(a.remove(last) =~= a.drop_last());
        lemma_sum_of_permutation(a.drop_last(), b.remove(j), term);
        lemma_sum_of_remove(b, term, j);
    }
}

} // verus!
