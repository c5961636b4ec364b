use opensrdk_probability::discrete::bernoulli::BernoulliError;
use opensrdk_probability::discrete::binominal::Binominal;
use opensrdk_probability::discrete::binominal::BinominalError;
use opensrdk_probability::discrete::binominal::BinominalTerms;
use opensrdk_probability::discrete::binominal::MOST_TRIALS;
use opensrdk_probability::discrete::poisson::factorial;
use opensrdk_probability::discrete::poisson::PoissonError;
use opensrdk_probability::discrete::poisson::LARGEST_FACTORIAL;
use opensrdk_probability::discrete::uniform::DiscreteUniform;
use opensrdk_probability::discrete::uniform::DiscreteUniformError;
use rand::rngs::StdRng;
use rand::SeedableRng;
use std::collections::HashSet;

#[test]
fn factorial_values() {
    assert_eq!(factorial(0), 1);
    assert_eq!(factorial(1), 1);
    assert_eq!(factorial(2), 2);
    assert_eq!(factorial(5), 120);
    assert_eq!(factorial(10), 3628800);
    assert_eq!(LARGEST_FACTORIAL, 20);
    assert_eq!(factorial(20), 2432902008176640000);
}

#[test]
fn binominal_terms_values() {
    assert_eq!(
        Binominal.terms(5, 2),
        Some(BinominalTerms { ways: 10, successes: 2, failures: 3 })
    );
    assert_eq!(
        Binominal.terms(5, 0),
        Some(BinominalTerms { ways: 1, successes: 0, failures: 5 })
    );
    assert_eq!(
        Binominal.terms(5, 5),
        Some(BinominalTerms { ways: 1, successes: 5, failures: 0 })
    );
    assert_eq!(
        Binominal.terms(0, 0),
        Some(BinominalTerms { ways: 1, successes: 0, failures: 0 })
    );
    assert_eq!(
        Binominal.terms(10, 3),
        Some(BinominalTerms { ways: 120, successes: 3, failures: 7 })
    );
}

#[test]
fn binominal_terms_of_the_most_trials() {
    assert_eq!(MOST_TRIALS, 67);
    assert_eq!(
        Binominal.terms(67, 33),
        Some(BinominalTerms { ways: 14226520737620288370, successes: 33, failures: 34 })
    );
    assert_eq!(
        Binominal.terms(67, 1),
        Some(BinominalTerms { ways: 67, successes: 1, failures: 66 })
    );
}

#[test]
fn binominal_terms_of_more_successes_than_trials() {
    assert_eq!(Binominal.terms(5, 6), None);
    assert_eq!(Binominal.terms(0, 1), None);
}

#[test]
fn uniform_on_nothing_is_range_is_empty() {
    let mut rng = StdRng::from_seed([1; 32]);
    let nothing: HashSet<u32> = HashSet::new();
    assert_eq!(
        DiscreteUniform::new().sample(&nothing, &mut rng),
        Err(DiscreteUniformError::RangeIsEmpty)
    );
}

#[test]
fn uniform_on_one_element_draws_it() {
    let mut rng = StdRng::from_seed([1; 32]);
    let one: HashSet<u32> = [42].into_iter().collect();
    for _ in 0..20 {
        assert_eq!(DiscreteUniform::new().sample(&one, &mut rng), Ok(42));
    }
}

#[test]
fn uniform_draws_elements_of_the_set() {
    let mut rng = StdRng::from_seed([1; 32]);
    let theta: HashSet<u32> = [3, 5, 8, 13, 21].into_iter().collect();
    let mut seen = HashSet::new();
    for _ in 0..400 {
        let x = DiscreteUniform::new().sample(&theta, &mut rng).unwrap();
        assert!(theta.contains(&x));
        seen.insert(x);
    }
    assert_eq!(seen, theta);
}

#[test]
fn uniform_pick_walks_the_set() {
    let theta: HashSet<u32> = [3, 5, 8].into_iter().collect();
    let distribution = DiscreteUniform::new();
    let mut picked = HashSet::new();
    for index in 0..3 {
        picked.insert(distribution.pick(&theta, index).unwrap());
    }
    assert_eq!(picked, theta);
    assert_eq!(distribution.pick(&theta, 3), Err(DiscreteUniformError::Unknown));
    assert_eq!(distribution.pick(&theta, usize::MAX), Err(DiscreteUniformError::Unknown));
}

#[test]
fn discrete_error_messages() {
    assert_eq!(BernoulliError::PMustBeProbability.message(), "'p' must be probability.");
    assert_eq!(BinominalError::PMustBeProbability.message(), "'p' must be probability.");
    assert_eq!(BinominalError::Unknown.message(), "Unknown error");
    assert_eq!(PoissonError::LambdaMustBePositive.message(), "'\u{3bb}' must be positive");
    assert_eq!(DiscreteUniformError::RangeIsEmpty.message(), "Range is empty.");
    assert_eq!(DiscreteUniformError::Unknown.message(), "Unknown error");
}
