//! The Bernoulli distribution.

use vstd::prelude::*;

verus! {

/// The ways in which the parameter of a Bernoulli distribution is refused.
#[derive(Clone, Copy, Debug, PartialEq, Eq, Structural)]
pub enum BernoulliError {
    /// The probability is below zero or above one.
    PMustBeProbability,
}

impl BernoulliError {
    /// The text that describes the error to a person.
    pub open spec fn description(self) -> Seq<char> {
        "'p' must be probability."@
    }

    /// The description as a string.
    pub fn message(&self) -> (text: String)
        ensures
            text@ == self.description(),
    {
        "'p' must be probability.".to_owned()
    }
}

} // verus!
