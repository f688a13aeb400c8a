//! One part's contribution to a distribution, and what makes it acceptable.

use vstd::prelude::*;

verus! {

/// How often the unit occurs in one part of the corpus, and how large that
/// part is.
///
/// The fields are signed so that a malformed observation can be written down
/// and rejected; see [`PartObservation::valid`].
#[derive(Clone, Copy, Debug, PartialEq, Eq)]
pub struct PartObservation {
    /// Occurrences of the unit in this part.
    pub frequency: i32,
    /// Size of this part, in tokens.
    pub size: i32,
}

/// Why a distribution was refused.
#[derive(Clone, Copy, Debug, PartialEq, Eq)]
pub enum DispersionError {
    /// Some part has a negative frequency or a size that is not positive.
    InvalidInput,
}

impl PartObservation {
    /// An observation is valid when its frequency is not negative and its
    /// size is positive. The frequency may exceed the size.
    pub open spec fn valid(self) -> bool {
        self.frequency >= 0 && self.size > 0
    }

    /// Writes down an observation as given, valid or not.
    pub fn new(frequency: i32, size: i32) -> (p: PartObservation)
        ensures
            p.frequency == frequency,
            p.size == size,
    {
        PartObservation { frequency, size }
    }

    /// Tells whether the observation is valid.
    pub fn is_valid(&self) -> (b: bool)
        ensures
            b == self.valid(),
    {
        self.frequency >= 0 && self.size > 0
    }
}

/// Every observation of the sequence is valid.
pub open spec fn all_valid(parts: Seq<PartObservation>) -> bool {
    forall|i: int| 0 <= i < parts.len() ==> (#[trigger] parts[i]).valid()
}

} // verus!
