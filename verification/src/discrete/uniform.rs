//! The uniform distribution over a finite set.

use rand::rngs::StdRng;
use rand::Rng;
use std::collections::HashSet;
use std::hash::Hash;
use vstd::prelude::*;
use vstd::std_specs::hash::group_hash_axioms;
use vstd::std_specs::hash::obeys_key_model;
use vstd::std_specs::iter::IteratorSpec;

verus! {

/// The ways in which drawing from a finite set fails.
#[derive(Clone, Copy, Debug, PartialEq, Eq, Structural)]
pub enum DiscreteUniformError {
    /// The set has no element.
    RangeIsEmpty,
    /// Anything else.
    Unknown,
}

impl DiscreteUniformError {
    /// The text that describes the error to a person.
    pub open spec fn description(self) -> Seq<char> {
        match self {
            DiscreteUniformError::RangeIsEmpty => "Range is empty."@,
            DiscreteUniformError::Unknown => "Unknown error"@,
        }
    }

    /// The description as a string.
    pub fn message(&self) -> (text: String)
        ensures
            text@ == self.description(),
    {
        match self {
            DiscreteUniformError::RangeIsEmpty => "Range is empty.".to_owned(),
            DiscreteUniformError::Unknown => "Unknown error".to_owned(),
        }
    }
}

/// The standard generator of the `rand` crate, carried through as it is.
#[verifier::external_type_specification]
#[verifier::external_body]
pub struct ExStdRng(StdRng);

/// `Rng::gen_range` on the range from zero up to `len`, without `len`. The
/// call panics on an empty range; its source adds to the lower end a number
/// below the width of the range. Trusted: the result is below `len`. Which
/// number it is depends on the generator.
#[verifier::external_body]
fn index_below(rng: &mut StdRng, len: usize) -> (index: usize)
    requires
        len > 0,
    ensures
        index < len,
{
    rng.gen_range(0..len)
}

/// The uniform distribution over the elements of a set.
#[derive(Clone, Copy, Debug)]
pub struct DiscreteUniform;

impl DiscreteUniform {
    /// The distribution; it has no state of its own.
    pub fn new() -> Self {
        DiscreteUniform
    }

    /// The element that comes at place `index` when `theta` is walked, as a
    /// clone. A place at or beyond the number of elements is `Unknown`.
    pub fn pick<T: Clone + Eq + Hash>(&self, theta: &HashSet<T>, index: usize) -> (element: Result<
        T,
        DiscreteUniformError,
    >)
        requires
            obeys_key_model::<T>(),
        ensures
            match element {
                Ok(x) => index < theta@.len() && exists|y: T| #[trigger] theta@.contains(y) && cloned(y, x),
                Err(e) => index >= theta@.len() && e == DiscreteUniformError::Unknown,
            },
    {
        broadcast use group_hash_axioms;

        let mut place: usize = 0;
        for x in it: theta.iter()
            invariant
                place == it.index(),
                place <= index,
                it.seq() == theta.iter().remaining(),
        {
            if index == place {
                proof {
                    let walk = theta.iter().remaining();
                    assert(walk.unref()[place as int] == *x);
                    assert(walk.unref().to_set().contains(*x));
                }
                return Ok(x.clone());
            }
            place += 1;
        }
        Err(DiscreteUniformError::Unknown)
    }

    /// Draws an element of `theta`, each with the same probability. An empty
    /// set is `RangeIsEmpty`.
    pub fn sample<T: Clone + Eq + Hash>(&self, theta: &HashSet<T>, rng: &mut StdRng) -> (element:
        Result<T, DiscreteUniformError>)
        requires
            obeys_key_model::<T>(),
        ensures
            match element {
                Ok(x) => theta@.len() > 0 && exists|y: T| #[trigger] theta@.contains(y) && cloned(y, x),
                Err(e) => theta@.len() == 0 && e == DiscreteUniformError::RangeIsEmpty,
            },
    {
        broadcast use group_hash_axioms;

        let len = theta.len();
        if len == 0 {
            return Err(DiscreteUniformError::RangeIsEmpty);
        }
        let i = index_below(rng, len);
        self.pick(theta, i)
    }
}

} // verus!
