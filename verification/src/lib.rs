//! Dispersion of a linguistic unit across the parts of a corpus.
//!
//! Given, for every part of a corpus, how often a unit occurs in it and how
//! large the part is, this crate derives everything about the unit's
//! dispersion that can be said in exact integer arithmetic: the corpus-wide
//! aggregates, the range, which of the classical dispersion indices are
//! mathematically defined, and the indices that are rational numbers
//! (pervasiveness, deviation of proportions and its normalised form) as exact
//! fractions.
//!
//! The other indices of the battery are real numbers built from square roots
//! and logarithms. Of those the crate answers what has an exact answer:
//! whether the index is defined for the distribution at hand, and from which
//! shares it is to be taken.
//!
//! The crate also writes the one-line summary of a record: the range in
//! decimal and the two headline indices, each as the text it is given for a
//! present value or as `None` for an absent one.

pub mod aggregate;
pub mod context;
pub mod distribution;
pub mod engine;
pub mod fraction;
pub mod laws;
pub mod observation;
pub mod proportions;
pub mod summary;

pub use context::{CorpusContext, Metric};
pub use distribution::Distribution;
pub use engine::{compute, DispersionProfile};
pub use fraction::{Fraction, Ratio};
pub use observation::{DispersionError, PartObservation};
pub use proportions::Shares;
pub use summary::summary;
