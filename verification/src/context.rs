//! The corpus-wide aggregates of a distribution, and which dispersion metrics
//! they leave defined.

use vstd::prelude::*;
use crate::aggregate::{num_parts, total_frequency, total_size};
use crate::observation::PartObservation;

verus! {

/// The metrics of the battery other than the range, which is always defined.
#[derive(Clone, Copy, Debug, PartialEq, Eq)]
pub enum Metric {
    /// Population standard deviation of the per-part relative frequencies.
    SdPopulation,
    /// Coefficient of variation of the per-part relative frequencies.
    VcPopulation,
    /// Juilland's D.
    JuillandD,
    /// Carroll's D2.
    CarrollD2,
    /// Rosengren's adjusted S.
    RoschengrenSAdj,
    /// Gries' deviation of proportions.
    Dp,
    /// Deviation of proportions, normalised by its maximum.
    DpNorm,
    /// Kullback-Leibler divergence of the observed from the expected shares.
    KlDivergence,
    /// Jensen-Shannon divergence between observed and expected shares.
    JsdDispersion,
    /// Hellinger distance between observed and expected shares.
    HellingerDispersion,
    /// Mean relative frequency, scaled to the reference size.
    MeanTextFrequencyFt,
    /// Fraction of the parts in which the unit occurs.
    PervasivenessPt,
    /// Evenness from the pairwise differences of the relative frequencies.
    EvennessDa,
    /// Mean text frequency weighted by pervasiveness.
    FtAdjustedByPt,
    /// Mean text frequency weighted by evenness.
    FtAdjustedByDa,
}

/// What the corpus as a whole contributes to every formula.
#[derive(Clone, Copy, Debug, PartialEq, Eq)]
pub struct CorpusContext {
    /// Occurrences of the unit in the whole corpus.
    pub total_frequency: u64,
    /// Size of the whole corpus.
    pub total_size: u64,
    /// Number of parts with a positive size.
    pub num_parts: usize,
}

impl CorpusContext {
    /// The context holds the aggregates of `parts`.
    pub open spec fn describes(self, parts: Seq<PartObservation>) -> bool {
        &&& self.total_frequency == total_frequency(parts)
        &&& self.total_size == total_size(parts)
        &&& self.num_parts == num_parts(parts)
    }

    /// The unit occurs somewhere in a corpus that is not empty, so that both
    /// the observed and the expected shares are proportions.
    pub open spec fn has_shares(self) -> bool {
        self.total_frequency > 0 && self.total_size > 0
    }

    /// Whether the formula of `metric` has a value in a corpus with these
    /// aggregates.
    ///
    /// A metric is undefined exactly when its formula divides by zero, takes
    /// a share of a total that is zero, or compares parts where there are
    /// fewer than two. Among valid observations the mean relative frequency
    /// is zero exactly when the total frequency is, and the smallest part is
    /// the whole corpus exactly when it is the only part, so the aggregates
    /// decide.
    pub open spec fn defines(self, metric: Metric) -> bool {
        match metric {
            // the deviation of a single value is zero
            Metric::SdPopulation => self.num_parts >= 1,
            // divides by the mean
            Metric::VcPopulation => self.num_parts >= 2 && self.total_frequency > 0,
            // divides the coefficient of variation by the root of parts less one
            Metric::JuillandD => self.num_parts >= 2 && self.total_frequency > 0,
            // shares of the total frequency, over the logarithm of the parts
            Metric::CarrollD2 => self.total_frequency > 0 && self.num_parts >= 2,
            // divides by the product of the totals
            Metric::RoschengrenSAdj => self.has_shares(),
            Metric::Dp => self.has_shares(),
            // divides the deviation by one minus the smallest expected share
            Metric::DpNorm => self.has_shares() && self.num_parts >= 2,
            // shares of the total frequency; no expected share is zero
            Metric::KlDivergence => self.total_frequency > 0,
            Metric::JsdDispersion => self.has_shares(),
            Metric::HellingerDispersion => self.has_shares(),
            // a mean over the parts
            Metric::MeanTextFrequencyFt => self.num_parts >= 1,
            // divides by the number of parts
            Metric::PervasivenessPt => self.num_parts >= 1,
            // pairs of parts, over the mean
            Metric::EvennessDa => self.num_parts >= 2 && self.total_frequency > 0,
            // needs both factors
            Metric::FtAdjustedByPt => self.num_parts >= 1,
            Metric::FtAdjustedByDa => self.num_parts >= 2 && self.total_frequency > 0,
        }
    }

    /// Tells whether `metric` is defined in a corpus with these aggregates.
    pub fn is_defined(&self, metric: Metric) -> (b: bool)
        ensures
            b == self.defines(metric),
    {
        let occurs = self.total_frequency > 0;
        let shares = occurs && self.total_size > 0;
        let some = self.num_parts >= 1;
        let several = self.num_parts >= 2;
        match metric {
            Metric::SdPopulation | Metric::MeanTextFrequencyFt | Metric::PervasivenessPt
            | Metric::FtAdjustedByPt => some,
            Metric::VcPopulation | Metric::JuillandD | Metric::CarrollD2 | Metric::EvennessDa
            | Metric::FtAdjustedByDa => several && occurs,
            Metric::RoschengrenSAdj | Metric::Dp | Metric::JsdDispersion
            | Metric::HellingerDispersion => shares,
            Metric::DpNorm => shares && several,
            Metric::KlDivergence => occurs,
        }
    }
}

} // verus!
