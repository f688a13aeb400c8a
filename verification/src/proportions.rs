//! The metrics that are rational numbers, computed exactly.
//!
//! With `f` and `s` the frequency and size of a part, and `F` and `S` the
//! totals over the corpus, the observed share of a part is `f / F` and its
//! expected share is `s / S`. Over the common denominator `F * S` the two
//! are `f * S` and `s * F`, and that is how shares are held here: as
//! integers over one denominator, so that the deviation of proportions is
//! one sum of integers.

use vstd::prelude::*;
use crate::aggregate::{
    frequency_term, lemma_sum_of_bounds, lemma_sum_of_prefix_le, lemma_sum_of_prefix_step,
    num_parts, occurrence_term, presence_term, range_of, size_term, sum_of, total_frequency,
    total_size,
};
use crate::distribution::Distribution;
use crate::fraction::{holds, Fraction, Ratio};
use crate::observation::{all_valid, PartObservation};

verus! {

/// The distance between two integers.
pub open spec fn distance(a: int, b: int) -> int {
    if a >= b {
        a - b
    } else {
        b - a
    }
}

/// The observed and the expected share of one part, both over the common
/// denominator of the corpus: the product of total frequency and total size.
#[derive(Clone, Copy, Debug, PartialEq, Eq)]
pub struct Shares {
    /// The part's share of the occurrences.
    pub observed: u128,
    /// The part's share of the corpus.
    pub expected: u128,
}

/// A part's share of the occurrences, over the common denominator.
pub open spec fn observed_share(p: PartObservation, total_size: int) -> int {
    p.frequency * total_size
}

/// A part's share of the corpus, over the common denominator.
pub open spec fn expected_share(p: PartObservation, total_frequency: int) -> int {
    p.size * total_frequency
}

/// The term that takes an observation's observed share.
pub open spec fn observed_term(total_size: int) -> spec_fn(PartObservation) -> int {
    |p: PartObservation| observed_share(p, total_size)
}

/// The term that takes an observation's expected share.
pub open spec fn expected_term(total_frequency: int) -> spec_fn(PartObservation) -> int {
    |p: PartObservation| expected_share(p, total_frequency)
}

/// The term of one part in the deviation of proportions, over the common
/// denominator `total_frequency * total_size`: the distance between the
/// part's observed and expected share.
pub open spec fn deviation_term(total_frequency: int, total_size: int) -> spec_fn(
    PartObservation,
) -> int {
    |p: PartObservation|
        distance(observed_share(p, total_size), expected_share(p, total_frequency))
}

/// The sum, over all parts, of the distance between observed and expected
/// share, over the common denominator of the shares.
pub open spec fn deviation_sum(parts: Seq<PartObservation>) -> int {
    sum_of(parts, deviation_term(total_frequency(parts), total_size(parts)))
}

/// The size of the smallest part; zero where there is no part.
pub open spec fn smallest_size(parts: Seq<PartObservation>) -> int
    decreases parts.len(),
{
    if parts.len() == 0 {
        0
    } else if parts.len() == 1 {
        parts[0].size as int
    } else {
        let rest = smallest_size(parts.drop_last());
        if parts.last().size < rest {
            parts.last().size as int
        } else {
            rest
        }
    }
}

/// Pervasiveness: the range over the number of parts. Undefined without
/// parts.
pub open spec fn pervasiveness_of(parts: Seq<PartObservation>) -> Option<Fraction> {
    if num_parts(parts) == 0 {
        None
    } else {
        Some(Fraction { numerator: range_of(parts), denominator: num_parts(parts) })
    }
}

/// Deviation of proportions: half the sum of the distances between observed
/// and expected shares. Undefined where either total is zero.
pub open spec fn dp_of(parts: Seq<PartObservation>) -> Option<Fraction> {
    if total_frequency(parts) > 0 && total_size(parts) > 0 {
        Some(
            Fraction {
                numerator: deviation_sum(parts),
                denominator: 2 * (total_frequency(parts) * total_size(parts)),
            },
        )
    } else {
        None
    }
}

/// Normalised deviation of proportions: the deviation divided by one minus
/// the smallest expected share. Undefined where the deviation is, and where
/// the smallest part is the whole corpus.
pub open spec fn dp_norm_of(parts: Seq<PartObservation>) -> Option<Fraction> {
    if total_frequency(parts) > 0 && total_size(parts) > 0 && smallest_size(parts) != total_size(
        parts,
    ) {
        Some(
            Fraction {
                numerator: deviation_sum(parts),
                denominator: 2 * (total_frequency(parts) * (total_size(parts) - smallest_size(
                    parts,
                ))),
            },
        )
    } else {
        None
    }
}

/// The largest total that a distribution of admissible length can reach.
pub open spec fn max_total() -> int {
    i32::MAX * i32::MAX
}

/// The aggregates of valid observations are bounded by their number.
pub proof fn lemma_aggregate_bounds(parts: Seq<PartObservation>)
    requires
        all_valid(parts),
    ensures
        0 <= total_frequency(parts) <= parts.len() * i32::MAX,
        parts.len() <= total_size(parts) <= parts.len() * i32::MAX,
        num_parts(parts) == parts.len(),
        0 <= range_of(parts) <= parts.len(),
{
    assert forall|i: int| 0 <= i < parts.len() implies 0 <= frequency_term()(#[trigger] parts[i])
        <= i32::MAX by {
        assert(parts[i].valid());
    }
    lemma_sum_of_bounds(parts, frequency_term(), 0, i32::MAX as int);
    assert forall|i: int| 0 <= i < parts.len() implies 1 <= size_term()(#[trigger] parts[i])
        <= i32::MAX by {
        assert(parts[i].valid());
    }
    lemma_sum_of_bounds(parts, size_term(), 1, i32::MAX as int);
    assert forall|i: int| 0 <= i < parts.len() implies 1 <= presence_term()(#[trigger] parts[i])
        <= 1 by {
        assert(parts[i].valid());
    }
    lemma_sum_of_bounds(parts, presence_term(), 1, 1);
    assert forall|i: int| 0 <= i < parts.len() implies 0 <= occurrence_term()(
        #[trigger] parts[i],
    ) <= 1 by {}
    lemma_sum_of_bounds(parts, occurrence_term(), 0, 1);
}

/// In a distribution of admissible length neither total exceeds the largest
/// one.
pub proof fn lemma_totals_within_reach(parts: Seq<PartObservation>)
    requires
        all_valid(parts),
        parts.len() <= i32::MAX,
    ensures
        0 <= total_frequency(parts) <= max_total(),
        0 <= total_size(parts) <= max_total(),
{
    lemma_aggregate_bounds(parts);
    let n = parts.len() as int;
    assert(n * i32::MAX <= max_total()) by (nonlinear_arith)
        requires
            0 <= n <= i32::MAX,
    ;
}

/// The totals of a prefix of valid observations do not exceed the totals of
/// the whole.
pub proof fn lemma_totals_of_prefix(parts: Seq<PartObservation>, i: int)
    requires
        all_valid(parts),
        0 <= i <= parts.len(),
    ensures
        0 <= total_frequency(parts.take(i)) <= total_frequency(parts),
        0 <= total_size(parts.take(i)) <= total_size(parts),
{
    assert forall|k: int| 0 <= k < parts.len() implies 0 <= frequency_term()(#[trigger] parts[k])
        && 0 <= size_term()(parts[k]) by {
        assert(parts[k].valid());
    }
    lemma_sum_of_prefix_le(parts, frequency_term(), i);
    lemma_sum_of_prefix_le(parts, size_term(), i);
}

/// Against any totals that are not negative, the distances of valid
/// observations sum to no more than the two products they are taken from.
pub proof fn lemma_deviation_bound(
    parts: Seq<PartObservation>,
    total_frequency: int,
    total_size: int,
)
    requires
        all_valid(parts),
        total_frequency >= 0,
        total_size >= 0,
    ensures
        0 <= sum_of(parts, deviation_term(total_frequency, total_size)) <= total_size
            * self::total_frequency(parts) + total_frequency * self::total_size(parts),
    decreases parts.len(),
{
    if parts.len() > 0 {
        let rest = parts.drop_last();
        let p = parts.last();
        assert(p.valid());
        assert forall|i: int| 0 <= i < rest.len() implies (#[trigger] rest[i]).valid() by {
            assert(parts[i].valid());
        }
        lemma_deviation_bound(rest, total_frequency, total_size);
        let f = p.frequency as int;
        let s = p.size as int;
        let tf = self::total_frequency(rest);
        let ts = self::total_size(rest);
        assert(0 <= f * total_size && 0 <= s * total_frequency) by (nonlinear_arith)
            requires
                f >= 0,
                s > 0,
                total_frequency >= 0,
                total_size >= 0,
        ;
        assert(total_size * (tf + f) + total_frequency * (ts + s) == (total_size * tf
            + total_frequency * ts) + (f * total_size + s * total_frequency))
            by (nonlinear_arith);
    }
}

/// The smallest size is the size of some part and exceeds that of none.
pub proof fn lemma_smallest_size(parts: Seq<PartObservation>)
    requires
        parts.len() > 0,
    ensures
        exists|i: int| 0 <= i < parts.len() && (#[trigger] parts[i]).size == smallest_size(parts),
        forall|i: int| 0 <= i < parts.len() ==> smallest_size(parts) <= (#[trigger] parts[i]).size,
    decreases parts.len(),
{
    if parts.len() == 1 {
        assert(parts[0].size == smallest_size(parts));
    } else {
        let rest = parts.drop_last();
        lemma_smallest_size(rest);
        let k = choose|i: int| 0 <= i < rest.len() && (#[trigger] rest[i]).size == smallest_size(rest);
        assert(parts[k] == rest[k]);
        if parts.last().size < smallest_size(rest) {
            assert(parts[parts.len() - 1].size == smallest_size(parts));
        } else {
            assert(parts[k].size == smallest_size(parts));
        }
        assert forall|i: int| 0 <= i < parts.len() implies smallest_size(parts) <= (
        #[trigger] parts[i]).size by {
            if i < rest.len() {
                assert(rest[i] == parts[i]);
            }
        }
    }
}

/// Among valid observations every part but the smallest adds at least one
/// token to the corpus, so the smallest part is the whole corpus exactly
/// when it is the only part.
pub proof fn lemma_smallest_spans_corpus(parts: Seq<PartObservation>)
    requires
        all_valid(parts),
        parts.len() > 0,
    ensures
        0 < smallest_size(parts),
        smallest_size(parts) + (parts.len() - 1) <= total_size(parts),
        smallest_size(parts) == total_size(parts) <==> parts.len() == 1,
    decreases parts.len(),
{
    assert(parts.last().valid());
    assert(total_size(parts) == total_size(parts.drop_last()) + parts.last().size);
    if parts.len() == 1 {
        assert(total_size(parts.drop_last()) == 0);
    } else {
        let rest = parts.drop_last();
        assert forall|i: int| 0 <= i < rest.len() implies (#[trigger] rest[i]).valid() by {
            assert(parts[i].valid());
        }
        lemma_smallest_spans_corpus(rest);
    }
}

impl<'a> Distribution<'a> {
    /// The shares of a part that is there.
    fn shares_at(&self, index: usize) -> (shares: Shares)
        requires
            index < self@.len(),
        ensures
            shares.observed == observed_share(self@[index as int], total_size(self@)),
            shares.expected == expected_share(self@[index as int], total_frequency(self@)),
    {
        let parts = self.parts();
        let context = self.context();
        let p = parts[index];
        let frequencies: u128 = context.total_frequency as u128;
        let sizes: u128 = context.total_size as u128;
        proof {
            lemma_aggregate_bounds(parts@);
            assert(p.valid());
            assert(p.frequency * sizes <= u128::MAX && p.size * frequencies <= u128::MAX)
                by (nonlinear_arith)
                requires
                    0 <= p.frequency <= i32::MAX,
                    0 <= p.size <= i32::MAX,
                    0 <= sizes <= parts@.len() * i32::MAX,
                    0 <= frequencies <= parts@.len() * i32::MAX,
                    parts@.len() <= i32::MAX,
            ;
        }
        Shares { observed: (p.frequency as u128) * sizes, expected: (p.size as u128) * frequencies }
    }

    /// The observed and the expected share of the part at `index`, if there
    /// is such a part.
    pub fn shares(&self, index: usize) -> (shares: Option<Shares>)
        ensures
            shares is Some <==> index < self@.len(),
            shares matches Some(s) ==> {
                &&& s.observed == observed_share(self@[index as int], total_size(self@))
                &&& s.expected == expected_share(self@[index as int], total_frequency(self@))
            },
    {
        if index < self.len() {
            Some(self.shares_at(index))
        } else {
            None
        }
    }

    /// The size of the smallest part, if there is a part.
    pub fn smallest_size(&self) -> (smallest: Option<i32>)
        ensures
            smallest is None <==> self@.len() == 0,
            smallest matches Some(m) ==> m == smallest_size(self@),
    {
        let parts = self.parts();
        if parts.len() == 0 {
            return None;
        }
        let mut smallest: i32 = parts[0].size;
        let mut i: usize = 1;
        assert(parts@.take(1).drop_last() =~= Seq::<PartObservation>::empty());
        while i < parts.len()
            invariant
                1 <= i <= parts.len(),
                smallest == smallest_size(parts@.take(i as int)),
            decreases parts.len() - i,
        {
            assert(parts@.take(i + 1).drop_last() =~= parts@.take(i as int));
            if parts[i].size < smallest {
                smallest = parts[i].size;
            }
            i = i + 1;
        }
        assert(parts@.take(i as int) =~= parts@);
        Some(smallest)
    }

    /// The sum of the distances between the observed and the expected share
    /// of every part, over the common denominator of the shares.
    pub fn deviation_sum(&self) -> (sum: u128)
        ensures
            sum == deviation_sum(self@),
    {
        let parts = self.parts();
        let ghost frequencies = total_frequency(parts@);
        let ghost sizes = total_size(parts@);
        let ghost term = deviation_term(frequencies, sizes);
        proof {
            lemma_totals_within_reach(parts@);
        }
        let mut sum: u128 = 0;
        let mut i: usize = 0;
        while i < parts.len()
            invariant
                i <= parts.len(),
                parts@ == self@,
                all_valid(parts@),
                frequencies == total_frequency(parts@),
                sizes == total_size(parts@),
                0 <= frequencies <= max_total(),
                0 <= sizes <= max_total(),
                term == deviation_term(frequencies, sizes),
                sum == sum_of(parts@.take(i as int), term),
            decreases parts.len() - i,
        {
            let shares = self.shares_at(i);
            proof {
                let next = parts@.take(i + 1);
                lemma_sum_of_prefix_step(parts@, term, i as int);
                assert forall|k: int| 0 <= k < next.len() implies (#[trigger] next[k]).valid() by {
                    assert(parts@[k].valid());
                }
                lemma_deviation_bound(next, frequencies, sizes);
                lemma_totals_of_prefix(parts@, i + 1);
                let tf = total_frequency(next);
                let ts = total_size(next);
                assert(sizes * tf + frequencies * ts <= 2 * (max_total() * max_total()))
                    by (nonlinear_arith)
                    requires
                        0 <= tf <= frequencies <= max_total(),
                        0 <= ts <= sizes <= max_total(),
                ;
                assert(2 * (max_total() * max_total()) <= u128::MAX) by (nonlinear_arith);
            }
            let deviation: u128 = if shares.observed >= shares.expected {
                shares.observed - shares.expected
            } else {
                shares.expected - shares.observed
            };
            sum = sum + deviation;
            i = i + 1;
        }
        assert(parts@.take(i as int) =~= parts@);
        sum
    }

    /// Pervasiveness: the fraction of the parts in which the unit occurs, as
    /// the range over the number of parts.
    pub fn pervasiveness_pt(&self) -> (pervasiveness: Option<Ratio>)
        ensures
            holds(pervasiveness, pervasiveness_of(self@)),
    {
        let parts = self.parts();
        proof {
            lemma_aggregate_bounds(parts@);
        }
        if parts.len() == 0 {
            return None;
        }
        let range = self.range();
        Some(Ratio { numerator: range as u128, denominator: parts.len() as u128 })
    }

    /// Deviation of proportions, as the sum of the distances between
    /// observed and expected shares over twice their common denominator.
    pub fn dp(&self) -> (dp: Option<Ratio>)
        ensures
            holds(dp, dp_of(self@)),
    {
        let context = self.context();
        if context.total_frequency == 0 || context.total_size == 0 {
            return None;
        }
        let parts = self.parts();
        let frequencies: u128 = context.total_frequency as u128;
        let sizes: u128 = context.total_size as u128;
        proof {
            lemma_aggregate_bounds(parts@);
            assert(2 * (frequencies * sizes) <= u128::MAX) by (nonlinear_arith)
                requires
                    frequencies <= parts@.len() * i32::MAX,
                    sizes <= parts@.len() * i32::MAX,
                    parts@.len() <= i32::MAX,
            ;
        }
        let numerator = self.deviation_sum();
        Some(Ratio { numerator, denominator: 2 * (frequencies * sizes) })
    }

    /// Normalised deviation of proportions: the deviation of proportions
    /// divided by its largest possible value, one minus the expected share
    /// of the smallest part.
    pub fn dp_norm(&self) -> (dp_norm: Option<Ratio>)
        ensures
            holds(dp_norm, dp_norm_of(self@)),
    {
        let context = self.context();
        if context.total_frequency == 0 || context.total_size == 0 {
            return None;
        }
        let parts = self.parts();
        proof {
            lemma_aggregate_bounds(parts@);
        }
        match self.smallest_size() {
            None => {
                assert(total_size(parts@) == 0);
                None
            },
            Some(smallest) => {
                proof {
                    lemma_smallest_spans_corpus(parts@);
                }
                if smallest as u64 == context.total_size {
                    return None;
                }
                let frequencies: u128 = context.total_frequency as u128;
                let rest: u128 = (context.total_size - smallest as u64) as u128;
                proof {
                    assert(2 * (frequencies * rest) <= u128::MAX) by (nonlinear_arith)
                        requires
                            frequencies <= parts@.len() * i32::MAX,
                            rest <= parts@.len() * i32::MAX,
                            parts@.len() <= i32::MAX,
                    ;
                }
                let numerator = self.deviation_sum();
                Some(Ratio { numerator, denominator: 2 * (frequencies * rest) })
            },
        }
    }
}

} // verus!
