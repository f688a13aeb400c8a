//! A distribution that has been checked once, with its aggregates.

use vstd::prelude::*;
use crate::aggregate::{
    frequency_term, lemma_sum_of_prefix_step, num_parts, occurrence_term, presence_term,
    range_of, size_term, total_frequency, total_size,
};
use crate::context::CorpusContext;
use crate::observation::{all_valid, DispersionError, PartObservation};

verus! {

/// The observations of one unit over the parts of a corpus, all of them
/// valid, together with the aggregates of the corpus.
pub struct Distribution<'a> {
    parts: &'a [PartObservation],
    context: CorpusContext,
}

impl<'a> View for Distribution<'a> {
    type V = Seq<PartObservation>;

    closed spec fn view(&self) -> Seq<PartObservation> {
        self.parts@
    }
}

impl<'a> Distribution<'a> {
    #[verifier::type_invariant]
    spec fn well_formed(self) -> bool {
        &&& self.parts.len() <= i32::MAX
        &&& all_valid(self.parts@)
        &&& self.context.describes(self.parts@)
    }

    /// Checks the observations and sums them up in one pass.
    ///
    /// The distribution is refused exactly when some observation is not
    /// valid. The number of parts must be one that the range can hold.
    pub fn new(parts: &'a [PartObservation]) -> (r: Result<Distribution<'a>, DispersionError>)
        requires
            parts.len() <= i32::MAX,
        ensures
            r is Ok <==> all_valid(parts@),
            r matches Ok(d) ==> d@ == parts@,
            r matches Err(e) ==> e == DispersionError::InvalidInput,
    {
        let mut frequencies: u64 = 0;
        let mut sizes: u64 = 0;
        let mut i: usize = 0;
        while i < parts.len()
            invariant
                i <= parts.len() <= i32::MAX,
                all_valid(parts@.take(i as int)),
                frequencies == total_frequency(parts@.take(i as int)),
                sizes == total_size(parts@.take(i as int)),
                i == num_parts(parts@.take(i as int)),
                frequencies <= i * i32::MAX,
                sizes <= i * i32::MAX,
            decreases parts.len() - i,
        {
            let p = parts[i];
            if !p.is_valid() {
                assert(!parts@[i as int].valid());
                return Err(DispersionError::InvalidInput);
            }
            proof {
                lemma_sum_of_prefix_step(parts@, frequency_term(), i as int);
                lemma_sum_of_prefix_step(parts@, size_term(), i as int);
                lemma_sum_of_prefix_step(parts@, presence_term(), i as int);
                assert forall|k: int| 0 <= k < i + 1 implies (#[trigger] parts@.take(i + 1)[k]).valid() by {
                    if k < i {
                        assert(parts@.take(i as int)[k].valid());
                    }
                }
            }
            frequencies = frequencies + p.frequency as u64;
            sizes = sizes + p.size as u64;
            i = i + 1;
        }
        assert(parts@.take(i as int) =~= parts@);
        let context = CorpusContext { total_frequency: frequencies, total_size: sizes, num_parts: i };
        Ok(Distribution { parts, context })
    }

    /// The number of parts.
    pub fn len(&self) -> (n: usize)
        ensures
            n == self@.len(),
    {
        self.parts.len()
    }

    /// The observations, in the order in which they were given.
    pub fn parts(&self) -> (parts: &'a [PartObservation])
        ensures
            parts@ == self@,
            parts@.len() <= i32::MAX,
            all_valid(parts@),
    {
        proof {
            use_type_invariant(self);
        }
        self.parts
    }

    /// The corpus-wide aggregates.
    pub fn context(&self) -> (context: CorpusContext)
        ensures
            context.describes(self@),
    {
        proof {
            use_type_invariant(self);
        }
        self.context
    }

    /// The range: the number of parts in which the unit occurs.
    pub fn range(&self) -> (range: i32)
        ensures
            range == range_of(self@),
            0 <= range <= self@.len(),
    {
        proof {
            use_type_invariant(self);
        }
        let mut range: i32 = 0;
        let mut i: usize = 0;
        while i < self.parts.len()
            invariant
                i <= self.parts.len() <= i32::MAX,
                range == range_of(self.parts@.take(i as int)),
                0 <= range <= i,
            decreases self.parts.len() - i,
        {
            proof {
                lemma_sum_of_prefix_step(self.parts@, occurrence_term(), i as int);
            }
            if self.parts[i].frequency > 0 {
                range = range + 1;
            }
            i = i + 1;
        }
        assert(self.parts@.take(i as int) =~= self.parts@);
        range
    }
}

} // verus!
