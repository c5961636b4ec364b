//! The binomial distribution.

use vstd::prelude::*;

verus! {

/// The ways in which the parameters of a binomial distribution are refused.
#[derive(Clone, Copy, Debug, PartialEq, Eq, Structural)]
pub enum BinominalError {
    /// The probability is below zero or above one.
    PMustBeProbability,
    /// Anything else.
    Unknown,
}

impl BinominalError {
    /// The text that describes the error to a person.
    pub open spec fn description(self) -> Seq<char> {
        match self {
            BinominalError::PMustBeProbability => "'p' must be probability."@,
            BinominalError::Unknown => "Unknown error"@,
        }
    }

    /// The description as a string.
    pub fn message(&self) -> (text: String)
        ensures
            text@ == self.description(),
    {
        match self {
            BinominalError::PMustBeProbability => "'p' must be probability.".to_owned(),
            BinominalError::Unknown => "Unknown error".to_owned(),
        }
    }
}

/// The largest number of trials whose every binomial coefficient is
/// computed in a `u64` without overflow.
pub const MOST_TRIALS: u64 = 67;

/// The number of ways to choose `k` of `n`.
pub open spec fn ways_to_choose(n: nat, k: nat) -> nat
    decreases n,
{
    if k == 0 {
        1
    } else if n == 0 {
        0
    } else {
        ways_to_choose((n - 1) as nat, (k - 1) as nat) + ways_to_choose((n - 1) as nat, k)
    }
}

/// `num_integer::binomial` on `u64`. Its documentation calls the result the
/// binomial coefficient and names 67 as the largest `n` for which no `k`
/// overflows; its source returns zero for `k` above `n`. Trusted: for `n` up
/// to 67 the call returns and gives the number of ways to choose `k` of `n`.
#[verifier::external_body]
fn binomial(n: u64, k: u64) -> (ways: u64)
    requires
        n <= MOST_TRIALS,
    ensures
        ways == ways_to_choose(n as nat, k as nat),
{
    num_integer::binomial(n, k)
}

/// The integers of the binomial probability of `successes` successes in a
/// number of trials: the number of ways in which the successes fall, and the
/// powers to which the probabilities of success and of failure are raised.
#[derive(Clone, Copy, Debug, PartialEq, Eq, Structural)]
pub struct BinominalTerms {
    /// The number of ways to choose the successful trials.
    pub ways: u64,
    /// The number of successes.
    pub successes: i32,
    /// The number of failures.
    pub failures: i32,
}

/// The binomial distribution.
#[derive(Clone, Copy, Debug)]
pub struct Binominal;

impl Binominal {
    /// The integers of the probability of `x` successes in `n` trials, or
    /// `None` where there are more successes than trials.
    pub fn terms(&self, n: u64, x: u64) -> (terms: Option<BinominalTerms>)
        requires
            n <= MOST_TRIALS,
        ensures
            x > n <==> terms is None,
            terms matches Some(t) ==> {
                &&& t.ways == ways_to_choose(n as nat, x as nat)
                &&& t.successes == x
                &&& t.failures == n - x
            },
    {
        if x > n {
            None
        } else {
            Some(BinominalTerms { ways: binomial(n, x), successes: x as i32, failures: (n - x) as i32 })
        }
    }
}

} // verus!
