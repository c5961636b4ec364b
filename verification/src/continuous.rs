//! Continuous distributions: the ways in which their parameters are refused.

use vstd::prelude::*;

verus! {

/// The ways in which the parameter of an exponential distribution is
/// refused.
#[derive(Clone, Copy, Debug, PartialEq, Eq, Structural)]
pub enum ExpError {
    /// The rate is zero or negative.
    LambdaMustBePositive,
}

impl ExpError {
    /// The text that describes the error to a person.
    pub open spec fn description(self) -> Seq<char> {
        "Lambda must be positive"@
    }

    /// The description as a string.
    pub fn message(&self) -> (text: String)
        ensures
            text@ == self.description(),
    {
        "Lambda must be positive".to_owned()
    }
}

/// The ways in which a multivariate Student-t distribution fails.
#[derive(Clone, Copy, Debug, PartialEq, Eq, Structural)]
pub enum MultivariateStudentTError {
    /// A value does not have the size of the location vector.
    DimensionMismatch,
}

impl MultivariateStudentTError {
    /// The text that describes the error to a person.
    pub open spec fn description(self) -> Seq<char> {
        "dimension mismatch"@
    }

    /// The description as a string.
    pub fn message(&self) -> (text: String)
        ensures
            text@ == self.description(),
    {
        "dimension mismatch".to_owned()
    }
}

} // verus!
