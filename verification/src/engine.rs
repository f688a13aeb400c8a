//! The engine: from a sequence of observations to the record of everything
//! that is exact about its dispersion.

use vstd::prelude::*;
use crate::aggregate::range_of;
use crate::context::{CorpusContext, Metric};
use crate::distribution::Distribution;
use crate::fraction::{holds, Ratio};
use crate::observation::{all_valid, DispersionError, PartObservation};
use crate::proportions::{dp_norm_of, dp_of, pervasiveness_of};

verus! {

/// What is exact about the dispersion of one unit in one corpus.
///
/// The range is always there. A rational metric is absent exactly when its
/// formula has no value, never in place of a zero. Whether any other metric
/// of the battery has a value is answered by
/// [`DispersionProfile::is_defined`].
#[derive(Clone, Copy, Debug, PartialEq, Eq)]
pub struct DispersionProfile {
    /// Number of parts in which the unit occurs.
    pub range: i32,
    /// The corpus-wide aggregates.
    pub context: CorpusContext,
    /// Fraction of the parts in which the unit occurs.
    pub pervasiveness_pt: Option<Ratio>,
    /// Deviation of proportions.
    pub dp: Option<Ratio>,
    /// Deviation of proportions, normalised.
    pub dp_norm: Option<Ratio>,
}

impl DispersionProfile {
    /// The profile is the one of `parts`: every field holds what its
    /// formula gives for them.
    pub open spec fn describes(self, parts: Seq<PartObservation>) -> bool {
        &&& self.range == range_of(parts)
        &&& self.context.describes(parts)
        &&& holds(self.pervasiveness_pt, pervasiveness_of(parts))
        &&& holds(self.dp, dp_of(parts))
        &&& holds(self.dp_norm, dp_norm_of(parts))
    }

    /// Tells whether `metric` has a value for the distribution profiled.
    pub fn is_defined(&self, metric: Metric) -> (b: bool)
        ensures
            b == self.context.defines(metric),
    {
        self.context.is_defined(metric)
    }
}

impl<'a> Distribution<'a> {
    /// Derives every exact metric of the distribution, each independently
    /// of the others.
    pub fn profile(&self) -> (profile: DispersionProfile)
        ensures
            profile.describes(self@),
    {
        DispersionProfile {
            range: self.range(),
            context: self.context(),
            pervasiveness_pt: self.pervasiveness_pt(),
            dp: self.dp(),
            dp_norm: self.dp_norm(),
        }
    }
}

/// Computes the profile of a sequence of observations.
///
/// Observations that are not all valid are refused as a whole, with no
/// partial result. Valid observations always get a full profile; without any
/// part it holds a range of zero and nothing else. The number of parts must
/// be one that the range can hold.
pub fn compute(parts: &[PartObservation]) -> (r: Result<DispersionProfile, DispersionError>)
    requires
        parts@.len() <= i32::MAX,
    ensures
        r is Ok <==> all_valid(parts@),
        r matches Ok(profile) ==> profile.describes(parts@),
        r matches Err(e) ==> e == DispersionError::InvalidInput,
{
    match Distribution::new(parts) {
        Ok(distribution) => Ok(distribution.profile()),
        Err(e) => Err(e),
    }
}

} // verus!
