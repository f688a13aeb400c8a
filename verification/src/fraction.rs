//! Exact fractions: the values of the metrics that are rational numbers.

use vstd::prelude::*;

verus! {

/// A fraction of two integers, as a mathematical value.
pub struct Fraction {
    pub numerator: int,
    pub denominator: int,
}

impl Fraction {
    /// The fraction has a positive denominator and is not negative.
    pub open spec fn proper(self) -> bool {
        self.numerator >= 0 && self.denominator > 0
    }

    /// The fraction lies between zero and one, both included.
    pub open spec fn within_unit(self) -> bool {
        self.proper() && self.numerator <= self.denominator
    }

    /// Two fractions with positive denominators stand for the same number.
    pub open spec fn same_value(self, other: Fraction) -> bool {
        self.numerator * other.denominator == other.numerator * self.denominator
    }
}

/// A fraction held in machine integers. It is not reduced: the contracts of
/// the functions that return one say what numerator and denominator are.
#[derive(Clone, Copy, Debug, PartialEq, Eq)]
pub struct Ratio {
    pub numerator: u128,
    pub denominator: u128,
}

impl View for Ratio {
    type V = Fraction;

    open spec fn view(&self) -> Fraction {
        Fraction { numerator: self.numerator as int, denominator: self.denominator as int }
    }
}

impl Ratio {
    /// Tells whether the fraction is zero.
    pub fn is_zero(&self) -> (b: bool)
        ensures
            b == (self@.numerator == 0),
    {
        self.numerator == 0
    }

    /// Tells whether the fraction is one.
    pub fn is_one(&self) -> (b: bool)
        ensures
            b == (self@.numerator == self@.denominator),
    {
        self.numerator == self.denominator
    }
}

/// The machine fraction, if there is one, holds exactly the mathematical one.
pub open spec fn holds(ratio: Option<Ratio>, fraction: Option<Fraction>) -> bool {
    match ratio {
        Some(q) => fraction == Some(q@),
        None => fraction is None,
    }
}

} // verus!
