//! What holds of every distribution: the laws that relate the aggregates,
//! the range, the exact metrics and the definedness of the others.

use vstd::prelude::*;
use vstd::seq_lib::{to_multiset_contains, to_multiset_len};
use crate::aggregate::{
    frequency_term, lemma_sum_of_combination, lemma_sum_of_permutation, lemma_sum_of_zero,
    num_parts, occurrence_term, presence_term, range_of, size_term, sum_of, total_frequency,
    total_size,
};
use crate::context::{CorpusContext, Metric};
use crate::engine::DispersionProfile;
use crate::observation::{all_valid, PartObservation};
use crate::proportions::{
    deviation_sum, deviation_term, dp_norm_of, dp_of, expected_share, expected_term,
    lemma_aggregate_bounds, lemma_deviation_bound, lemma_smallest_size,
    lemma_smallest_spans_corpus, observed_share, observed_term, pervasiveness_of, smallest_size,
};

verus! {

/// Two sequences hold the same observations, each as often in one as in the
/// other: one is a rearrangement of the other.
pub open spec fn rearranged(a: Seq<PartObservation>, b: Seq<PartObservation>) -> bool {
    a.to_multiset() == b.to_multiset()
}

/// Rearranging the parts changes neither the aggregates nor the range.
pub proof fn lemma_aggregates_ignore_order(a: Seq<PartObservation>, b: Seq<PartObservation>)
    requires
        rearranged(a, b),
    ensures
        a.len() == b.len(),
        all_valid(a) == all_valid(b),
        total_frequency(a) == total_frequency(b),
        total_size(a) == total_size(b),
        num_parts(a) == num_parts(b),
        range_of(a) == range_of(b),
{
    to_multiset_len(a);
    to_multiset_len(b);
    lemma_sum_of_permutation(a, b, frequency_term());
    lemma_sum_of_permutation(a, b, size_term());
    lemma_sum_of_permutation(a, b, presence_term());
    lemma_sum_of_permutation(a, b, occurrence_term());
    lemma_validity_ignores_order(a, b);
    lemma_validity_ignores_order(b, a);
}

/// A rearrangement of valid observations is valid.
proof fn lemma_validity_ignores_order(a: Seq<PartObservation>, b: Seq<PartObservation>)
    requires
        rearranged(a, b),
    ensures
        all_valid(a) ==> all_valid(b),
{
    if all_valid(a) {
        assert forall|i: int| 0 <= i < b.len() implies (#[trigger] b[i]).valid() by {
            to_multiset_contains(b, b[i]);
            to_multiset_contains(a, b[i]);
            assert(b.contains(b[i]));
            let k = choose|k: int| 0 <= k < a.len() && a[k] == b[i];
            assert(a[k].valid());
        }
    }
}

/// Rearranging the parts does not change the size of the smallest.
pub proof fn lemma_smallest_size_ignores_order(a: Seq<PartObservation>, b: Seq<PartObservation>)
    requires
        rearranged(a, b),
    ensures
        smallest_size(a) == smallest_size(b),
{
    to_multiset_len(a);
    to_multiset_len(b);
    if a.len() > 0 {
        lemma_smallest_size(a);
        lemma_smallest_size(b);
        let i = choose|i: int| 0 <= i < a.len() && (#[trigger] a[i]).size == smallest_size(a);
        let j = choose|j: int| 0 <= j < b.len() && (#[trigger] b[j]).size == smallest_size(b);
        to_multiset_contains(a, a[i]);
        to_multiset_contains(b, a[i]);
        to_multiset_contains(a, b[j]);
        to_multiset_contains(b, b[j]);
        assert(a.contains(a[i]));
        assert(b.contains(b[j]));
        let i2 = choose|k: int| 0 <= k < b.len() && b[k] == a[i];
        let j2 = choose|k: int| 0 <= k < a.len() && a[k] == b[j];
        assert(smallest_size(b) <= b[i2].size);
        assert(smallest_size(a) <= a[j2].size);
    }
}

/// Order-independence: the range, the aggregates and every exact metric are
/// functions of the observations as a multiset. Since the aggregates decide
/// which metrics are defined, so is the definedness of every metric.
pub proof fn lemma_order_independence(a: Seq<PartObservation>, b: Seq<PartObservation>)
    requires
        rearranged(a, b),
    ensures
        range_of(a) == range_of(b),
        deviation_sum(a) == deviation_sum(b),
        pervasiveness_of(a) == pervasiveness_of(b),
        dp_of(a) == dp_of(b),
        dp_norm_of(a) == dp_norm_of(b),
        forall|context: CorpusContext| context.describes(a) <==> context.describes(b),
        forall|profile: DispersionProfile| profile.describes(a) <==> profile.describes(b),
{
    lemma_aggregates_ignore_order(a, b);
    lemma_smallest_size_ignores_order(a, b);
    lemma_sum_of_permutation(a, b, deviation_term(total_frequency(a), total_size(a)));
}

/// Determinism: a sequence of observations has one profile. Two profiles of
/// the same observations agree in every field, the absent ones included.
pub proof fn lemma_profile_is_unique(
    parts: Seq<PartObservation>,
    first: DispersionProfile,
    second: DispersionProfile,
)
    requires
        first.describes(parts),
        second.describes(parts),
    ensures
        first == second,
        forall|metric: Metric| first.context.defines(metric) == second.context.defines(metric),
{
}

/// The range is at most the number of parts, and it is zero exactly when
/// the unit occurs nowhere: when the total frequency is zero, which is when
/// every part has frequency zero.
pub proof fn lemma_range_bounds(parts: Seq<PartObservation>)
    requires
        all_valid(parts),
    ensures
        0 <= range_of(parts) <= num_parts(parts),
        range_of(parts) == 0 <==> total_frequency(parts) == 0,
        total_frequency(parts) == 0 <==> forall|i: int|
            0 <= i < parts.len() ==> (#[trigger] parts[i]).frequency == 0,
{
    lemma_aggregate_bounds(parts);
    assert forall|i: int| 0 <= i < parts.len() implies 0 <= frequency_term()(#[trigger] parts[i])
        && 0 <= occurrence_term()(parts[i]) by {
        assert(parts[i].valid());
    }
    lemma_sum_of_zero(parts, frequency_term());
    lemma_sum_of_zero(parts, occurrence_term());
    if range_of(parts) == 0 {
        assert forall|i: int| 0 <= i < parts.len() implies frequency_term()(#[trigger] parts[i])
            == 0 by {
            assert(occurrence_term()(parts[i]) == 0);
            assert(parts[i].valid());
        }
    }
    if total_frequency(parts) == 0 {
        assert forall|i: int| 0 <= i < parts.len() implies occurrence_term()(#[trigger] parts[i])
            == 0 by {
            assert(frequency_term()(parts[i]) == 0);
        }
        assert forall|i: int| 0 <= i < parts.len() implies (#[trigger] parts[i]).frequency
            == 0 by {
            assert(frequency_term()(parts[i]) == 0);
        }
    }
    if forall|i: int| 0 <= i < parts.len() ==> (#[trigger] parts[i]).frequency == 0 {
        assert forall|i: int| 0 <= i < parts.len() implies frequency_term()(#[trigger] parts[i])
            == 0 by {
            assert(parts[i].frequency == 0);
        }
    }
}

/// Pervasiveness, where it is defined, lies between zero and one.
pub proof fn lemma_pervasiveness_within_unit(parts: Seq<PartObservation>)
    requires
        all_valid(parts),
    ensures
        pervasiveness_of(parts) matches Some(pervasiveness) ==> pervasiveness.within_unit(),
{
    lemma_range_bounds(parts);
}

/// The deviation of proportions, where it is defined, lies between zero and
/// one.
pub proof fn lemma_dp_within_unit(parts: Seq<PartObservation>)
    requires
        all_valid(parts),
    ensures
        dp_of(parts) matches Some(dp) ==> dp.within_unit(),
{
    let f = total_frequency(parts);
    let s = total_size(parts);
    if f > 0 && s > 0 {
        lemma_deviation_bound(parts, f, s);
        assert(s * f + f * s == 2 * (f * s)) by (nonlinear_arith);
        assert(f * s > 0) by (nonlinear_arith)
            requires
                f > 0,
                s > 0,
        ;
    }
}

/// The observed shares of all parts make up the whole, and so do the
/// expected shares: over the common denominator each kind sums to that
/// denominator.
pub proof fn lemma_shares_sum_to_whole(parts: Seq<PartObservation>)
    ensures
        sum_of(parts, observed_term(total_size(parts))) == total_frequency(parts) * total_size(
            parts,
        ),
        sum_of(parts, expected_term(total_frequency(parts))) == total_frequency(parts)
            * total_size(parts),
{
    let f = total_frequency(parts);
    let s = total_size(parts);
    assert forall|k: int| 0 <= k < parts.len() implies observed_term(s)(#[trigger] parts[k]) == s
        * frequency_term()(parts[k]) + 0 * size_term()(parts[k]) by {
        let x = parts[k].frequency as int;
        assert(x * s == s * x + 0) by (nonlinear_arith);
    }
    lemma_sum_of_combination(parts, observed_term(s), frequency_term(), size_term(), s, 0);
    assert forall|k: int| 0 <= k < parts.len() implies expected_term(f)(#[trigger] parts[k]) == 0
        * frequency_term()(parts[k]) + f * size_term()(parts[k]) by {
        let x = parts[k].size as int;
        assert(x * f == 0 + f * x) by (nonlinear_arith);
    }
    lemma_sum_of_combination(parts, expected_term(f), frequency_term(), size_term(), 0, f);
    assert(s * f + 0 * s == f * s) by (nonlinear_arith);
    assert(0 * f + f * s == f * s) by (nonlinear_arith);
}

/// Where the unit occurs at all, every part has a positive expected share:
/// no part is expected to be empty, whatever is observed in it.
pub proof fn lemma_expected_shares_positive(parts: Seq<PartObservation>)
    requires
        all_valid(parts),
        total_frequency(parts) > 0,
    ensures
        forall|i: int|
            0 <= i < parts.len() ==> expected_share(#[trigger] parts[i], total_frequency(parts))
                > 0,
        forall|i: int|
            0 <= i < parts.len() ==> observed_share(#[trigger] parts[i], total_size(parts)) >= 0,
{
    let f = total_frequency(parts);
    let s = total_size(parts);
    lemma_aggregate_bounds(parts);
    assert forall|i: int| 0 <= i < parts.len() implies expected_share(#[trigger] parts[i], f)
        > 0 && observed_share(parts[i], s) >= 0 by {
        assert(parts[i].valid());
        let x = parts[i].size as int;
        let y = parts[i].frequency as int;
        assert(x * f > 0 && y * s >= 0) by (nonlinear_arith)
            requires
                x > 0,
                f > 0,
                y >= 0,
                s >= 0,
        ;
    }
}

/// The term of one part in the excess of the observed over the expected
/// shares: by how much the observed share is the larger, if it is.
pub open spec fn excess_term(total_frequency: int, total_size: int) -> spec_fn(
    PartObservation,
) -> int {
    |p: PartObservation|
        if observed_share(p, total_size) > expected_share(p, total_frequency) {
            observed_share(p, total_size) - expected_share(p, total_frequency)
        } else {
            0
        }
}

/// What the parts with too many occurrences have too much, the others have
/// too little: the deviations sum to twice the excess.
pub proof fn lemma_deviation_is_twice_excess(parts: Seq<PartObservation>)
    ensures
        deviation_sum(parts) == 2 * sum_of(
            parts,
            excess_term(total_frequency(parts), total_size(parts)),
        ),
{
    let f = total_frequency(parts);
    let s = total_size(parts);
    let balance = |p: PartObservation| observed_share(p, s) - expected_share(p, f);
    assert forall|k: int| 0 <= k < parts.len() implies balance(#[trigger] parts[k]) == 1
        * observed_term(s)(parts[k]) + (-1) * expected_term(f)(parts[k]) by {}
    lemma_sum_of_combination(parts, balance, observed_term(s), expected_term(f), 1, -1);
    lemma_shares_sum_to_whole(parts);
    assert(sum_of(parts, balance) == 0);
    assert forall|k: int| 0 <= k < parts.len() implies deviation_term(f, s)(#[trigger] parts[k])
        == 2 * excess_term(f, s)(parts[k]) + (-1) * balance(parts[k]) by {}
    lemma_sum_of_combination(parts, deviation_term(f, s), excess_term(f, s), balance, 2, -1);
}

/// The excess leaves room for the smallest part: where any part has more
/// than its expected share, the excess and the expected share of a part no
/// larger than any other still fit into the whole of the observed shares.
proof fn lemma_excess_leaves_room(
    parts: Seq<PartObservation>,
    total_frequency: int,
    total_size: int,
    least: int,
)
    requires
        all_valid(parts),
        total_frequency >= 0,
        total_size >= 0,
        least >= 0,
        forall|i: int| 0 <= i < parts.len() ==> least <= (#[trigger] parts[i]).size,
    ensures
        0 <= sum_of(parts, excess_term(total_frequency, total_size)),
        sum_of(parts, excess_term(total_frequency, total_size)) + (if sum_of(
            parts,
            excess_term(total_frequency, total_size),
        ) > 0 {
            least * total_frequency
        } else {
            0
        }) <= sum_of(parts, observed_term(total_size)),
    decreases parts.len(),
{
    assert(least * total_frequency >= 0) by (nonlinear_arith)
        requires
            least >= 0,
            total_frequency >= 0,
    ;
    if parts.len() > 0 {
        let rest = parts.drop_last();
        let p = parts[parts.len() - 1];
        assert(p.valid());
        assert forall|i: int| 0 <= i < rest.len() implies (#[trigger] rest[i]).valid() && least
            <= rest[i].size by {
            assert(rest[i] == parts[i]);
            assert(parts[i].valid());
        }
        lemma_excess_leaves_room(rest, total_frequency, total_size, least);
        let f = p.frequency as int;
        let z = p.size as int;
        assert(f * total_size >= 0 && z * total_frequency >= least * total_frequency)
            by (nonlinear_arith)
            requires
                f >= 0,
                total_size >= 0,
                z >= least,
                total_frequency >= 0,
        ;
    }
}

/// The normalised deviation of proportions, where it is defined, lies
/// between zero and one: the deviation cannot exceed one minus the smallest
/// expected share.
pub proof fn lemma_dp_norm_within_unit(parts: Seq<PartObservation>)
    requires
        all_valid(parts),
    ensures
        dp_norm_of(parts) matches Some(dp_norm) ==> dp_norm.within_unit(),
{
    let f = total_frequency(parts);
    let s = total_size(parts);
    let least = smallest_size(parts);
    if f > 0 && s > 0 && least != s {
        lemma_aggregate_bounds(parts);
        lemma_smallest_size(parts);
        lemma_smallest_spans_corpus(parts);
        lemma_deviation_is_twice_excess(parts);
        lemma_excess_leaves_room(parts, f, s, least);
        lemma_shares_sum_to_whole(parts);
        lemma_deviation_bound(parts, f, s);
        assert(f * (s - least) == f * s - least * f && f * (s - least) > 0) by (nonlinear_arith)
            requires
                f > 0,
                s > least,
        ;
    }
}

/// The rational metrics have a value exactly where the aggregates say that
/// they are defined. For the normalised deviation this is where the
/// smallest part is not the whole corpus, which is where there are two
/// parts.
pub proof fn lemma_rational_metrics_defined(parts: Seq<PartObservation>, context: CorpusContext)
    requires
        all_valid(parts),
        context.describes(parts),
    ensures
        pervasiveness_of(parts) is Some <==> context.defines(Metric::PervasivenessPt),
        dp_of(parts) is Some <==> context.defines(Metric::Dp),
        dp_norm_of(parts) is Some <==> context.defines(Metric::DpNorm),
{
    lemma_aggregate_bounds(parts);
    if parts.len() > 0 {
        lemma_smallest_spans_corpus(parts);
    }
}

/// How the definedness of one metric hangs on that of another: Juilland's D
/// needs the coefficient of variation and two parts; the normalised
/// deviation needs the deviation; an adjusted frequency needs both of its
/// factors.
pub proof fn lemma_definedness_is_chained(context: CorpusContext)
    ensures
        context.defines(Metric::JuillandD) <==> context.num_parts >= 2 && context.defines(
            Metric::VcPopulation,
        ),
        context.defines(Metric::DpNorm) ==> context.defines(Metric::Dp),
        context.defines(Metric::FtAdjustedByPt) <==> context.defines(Metric::MeanTextFrequencyFt)
            && context.defines(Metric::PervasivenessPt),
        context.defines(Metric::FtAdjustedByDa) <==> context.defines(Metric::MeanTextFrequencyFt)
            && context.defines(Metric::EvennessDa),
{
}

/// Without parts no metric is defined: the range stands alone.
pub proof fn lemma_no_parts_nothing_defined(parts: Seq<PartObservation>, context: CorpusContext)
    requires
        parts.len() == 0,
        context.describes(parts),
    ensures
        range_of(parts) == 0,
        forall|metric: Metric| !context.defines(metric),
{
}

} // verus!
