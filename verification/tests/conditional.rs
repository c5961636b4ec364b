use opensrdk_probability::continuous::ExpError;
use opensrdk_probability::continuous::MultivariateStudentTError;
use opensrdk_probability::instant_conditional::ConditionalError;
use opensrdk_probability::instant_conditional::Conditioning;
use opensrdk_probability::mcmc::sir::resampling_pool;
use opensrdk_probability::nonparametric::gaussian_process::GaussianProcessError;

#[test]
fn conditioning_starts_without_a_condition() {
    let conditioning: Conditioning<u8> = Conditioning::new();
    assert_eq!(conditioning.condition(), Err(ConditionalError::NotConditioned));
}

#[test]
fn conditioning_keeps_the_last_condition() {
    let mut conditioning = Conditioning::new();
    conditioning.with_condition(vec![1, 2]);
    assert_eq!(conditioning.condition(), Ok(&vec![1, 2]));
    conditioning.with_condition(vec![3]);
    assert_eq!(conditioning.condition(), Ok(&vec![3]));
}

#[test]
fn pool_holds_each_particle_as_often_as_asked() {
    let particles = vec!['a', 'b', 'c', 'd'];
    assert_eq!(
        resampling_pool(&particles, &vec![2, 0, 3, 1]),
        vec!['a', 'a', 'c', 'c', 'c', 'd']
    );
    assert_eq!(resampling_pool(&particles, &vec![0, 0, 0, 0]), Vec::<char>::new());
    assert_eq!(resampling_pool(&particles, &vec![1, 2]), vec!['a', 'b', 'b']);
    assert_eq!(resampling_pool(&particles, &Vec::new()), Vec::<char>::new());
}

#[test]
fn other_error_messages() {
    assert_eq!(ConditionalError::NotConditioned.message(), "not conditioned");
    assert_eq!(ExpError::LambdaMustBePositive.message(), "Lambda must be positive");
    assert_eq!(MultivariateStudentTError::DimensionMismatch.message(), "dimension mismatch");
    assert_eq!(GaussianProcessError::Empty.message(), "Data is empty.");
    assert_eq!(GaussianProcessError::DimensionMismatch.message(), "Dimension mismatch.");
    assert_eq!(GaussianProcessError::NaNContamination.message(), "NaN contaminated.");
    assert_eq!(GaussianProcessError::NotPrepared.message(), "Not prepared.");
}
