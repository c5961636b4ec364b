//! Gaussian processes.

use vstd::prelude::*;

verus! {

/// The ways in which a Gaussian process regression fails.
#[derive(Clone, Copy, Debug, PartialEq, Eq, Structural)]
pub enum GaussianProcessError {
    /// There are no observations.
    Empty,
    /// The number of outputs differs from the number of inputs.
    DimensionMismatch,
    /// A determinant or an eigenvalue is not a finite number.
    NaNContamination,
    /// A prediction was asked for before the observations were given.
    NotPrepared,
}

impl GaussianProcessError {
    /// The text that describes the error to a person.
    pub open spec fn description(self) -> Seq<char> {
        match self {
            GaussianProcessError::Empty => "Data is empty."@,
            GaussianProcessError::DimensionMismatch => "Dimension mismatch."@,
            GaussianProcessError::NaNContamination => "NaN contaminated."@,
            GaussianProcessError::NotPrepared => "Not prepared."@,
        }
    }

    /// The description as a string.
    pub fn message(&self) -> (text: String)
        ensures
            text@ == self.description(),
    {
        match self {
            GaussianProcessError::Empty => "Data is empty.".to_owned(),
            GaussianProcessError::DimensionMismatch => "Dimension mismatch.".to_owned(),
            GaussianProcessError::NaNContamination => "NaN contaminated.".to_owned(),
            GaussianProcessError::NotPrepared => "Not prepared.".to_owned(),
        }
    }
}

} // verus!
