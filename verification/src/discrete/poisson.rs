//! The Poisson distribution.

use vstd::prelude::*;

verus! {

/// The ways in which the parameter of a Poisson distribution is refused.
#[derive(Clone, Copy, Debug, PartialEq, Eq, Structural)]
pub enum PoissonError {
    /// The rate is zero or negative.
    LambdaMustBePositive,
}

impl PoissonError {
    /// The text that describes the error to a person.
    pub open spec fn description(self) -> Seq<char> {
        "'\u{3bb}' must be positive"@
    }

    /// The description as a string.
    pub fn message(&self) -> (text: String)
        ensures
            text@ == self.description(),
    {
        "'\u{3bb}' must be positive".to_owned()
    }
}

/// The largest number whose factorial is a `u64`.
pub const LARGEST_FACTORIAL: u64 = 20;

/// The product of the numbers from one to `num`.
pub open spec fn product_to(num: nat) -> nat
    decreases num,
{
    if num <= 1 {
        1
    } else {
        product_to((num - 1) as nat) * num
    }
}

proof fn lemma_product_grows(low: nat, high: nat)
    requires
        low <= high,
    ensures
        1 <= product_to(low) <= product_to(high),
    decreases high,
{
    if high > 1 {
        let below = (high - 1) as nat;
        lemma_product_grows(if low < high { low } else { below }, below);
        assert(product_to(below) <= product_to(below) * high) by (nonlinear_arith)
            requires
                high >= 1,
        ;
    }
}

proof fn lemma_largest_product()
    ensures
        product_to(20) == 2432902008176640000,
{
    assert(product_to(1) == 1);
    assert(product_to(2) == 2);
    assert(product_to(3) == 6);
    assert(product_to(4) == 24);
    assert(product_to(5) == 120);
    assert(product_to(6) == 720);
    assert(product_to(7) == 5040);
    assert(product_to(8) == 40320);
    assert(product_to(9) == 362880);
    assert(product_to(10) == 3628800);
    assert(product_to(11) == 39916800);
    assert(product_to(12) == 479001600);
    assert(product_to(13) == 6227020800);
    assert(product_to(14) == 87178291200);
    assert(product_to(15) == 1307674368000);
    assert(product_to(16) == 20922789888000);
    assert(product_to(17) == 355687428096000);
    assert(product_to(18) == 6402373705728000);
    assert(product_to(19) == 121645100408832000);
    assert(product_to(20) == 2432902008176640000);
}

/// The factorial of `num`, the denominator of the Poisson probability of
/// `num` events.
pub fn factorial(num: u64) -> (product: u64)
    requires
        num <= LARGEST_FACTORIAL,
    ensures
        product == product_to(num as nat),
        product >= 1,
    decreases num,
{
    match num {
        0 | 1 => 1,
        _ => {
            proof {
                lemma_product_grows(num as nat, 20);
                lemma_product_grows((num - 1) as nat, num as nat);
                lemma_largest_product();
            }
            factorial(num - 1) * num
        },
    }
}

} // verus!
