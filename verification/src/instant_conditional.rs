//! The condition of a conditional distribution.

use vstd::prelude::*;

verus! {

/// The ways in which a conditional distribution cannot be evaluated.
#[derive(Clone, Copy, Debug, PartialEq, Eq, Structural)]
pub enum ConditionalError {
    /// No condition was given yet.
    NotConditioned,
}

impl ConditionalError {
    /// The text that describes the error to a person.
    pub open spec fn description(self) -> Seq<char> {
        "not conditioned"@
    }

    /// The description as a string.
    pub fn message(&self) -> (text: String)
        ensures
            text@ == self.description(),
    {
        "not conditioned".to_owned()
    }
}

/// The condition under which a conditional distribution is evaluated and
/// sampled: none at first, then the one that was given last.
#[derive(Debug)]
pub struct Conditioning<U> {
    condition: Option<U>,
}

impl<U> View for Conditioning<U> {
    type V = Option<U>;

    closed spec fn view(&self) -> Option<U> {
        self.condition
    }
}

impl<U> Conditioning<U> {
    /// No condition yet.
    pub fn new() -> (conditioning: Self)
        ensures
            conditioning@ is None,
    {
        Self { condition: None }
    }

    /// Replaces the condition by `condition`.
    pub fn with_condition(&mut self, condition: U)
        ensures
            final(self)@ == Some(condition),
    {
        self.condition = Some(condition);
    }

    /// The condition, or `NotConditioned` where none was given.
    pub fn condition(&self) -> (condition: Result<&U, ConditionalError>)
        ensures
            match condition {
                Ok(c) => self@ == Some(*c),
                Err(e) => self@ is None && e == ConditionalError::NotConditioned,
            },
    {
        match &self.condition {
            Some(c) => Ok(c),
            None => Err(ConditionalError::NotConditioned),
        }
    }
}

} // verus!
