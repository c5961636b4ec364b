use opensrdk_probability::nonparametric::cluster_switch::ClusterSwitch;
use opensrdk_probability::nonparametric::cluster_switch::ClusterSwitchError;
use std::collections::HashMap;
use std::collections::HashSet;

/// The parameters of a normal distribution, as a cluster parameter.
#[derive(Clone, Debug, PartialEq)]
struct NormalParams {
    mu: f64,
    sigma: f64,
}

impl NormalParams {
    fn new(mu: f64, sigma: f64) -> Result<Self, String> {
        if sigma <= 0.0 {
            return Err("sigma must be positive".to_owned());
        }
        Ok(Self { mu, sigma })
    }

    fn mu(&self) -> f64 {
        self.mu
    }
}

fn four_clusters() -> ClusterSwitch<NormalParams> {
    let s = vec![1u32, 2u32, 3u32, 4u32];
    let mut theta = HashMap::new();
    theta.insert(1u32, NormalParams::new(1.0, 2.0).unwrap());
    theta.insert(2u32, NormalParams::new(2.0, 2.0).unwrap());
    theta.insert(3u32, NormalParams::new(3.0, 2.0).unwrap());
    theta.insert(4u32, NormalParams::new(4.0, 2.0).unwrap());
    ClusterSwitch::new(s, theta).unwrap()
}

fn set_of(items: &[usize]) -> HashSet<usize> {
    items.iter().copied().collect()
}

#[test]
fn cluster_switch_it_works() {
    let mu = 5.0;
    let s = vec![1u32, 2u32, 3u32, 4u32];
    let mut theta = HashMap::new();
    theta.insert(1u32, NormalParams::new(1.0, 2.0).unwrap());
    theta.insert(2u32, NormalParams::new(2.0, 2.0).unwrap());
    theta.insert(3u32, NormalParams::new(3.0, 2.0).unwrap());
    theta.insert(4u32, NormalParams::new(4.0, 2.0).unwrap());

    let mut cs = ClusterSwitch::new(s, theta).unwrap();
    let new_k = cs.set_s_with_theta(0, 0u32, NormalParams::new(mu, 2.0).unwrap());
    let new_mu = cs.theta().get(&new_k).unwrap().mu();

    assert_eq!(mu, new_mu);
}

#[test]
fn cluster_switch_it_works2() {
    let s = vec![1u32, 2u32, 3u32, 4u32];
    let mut theta = HashMap::new();
    theta.insert(1u32, NormalParams::new(1.0, 2.0).unwrap());
    theta.insert(2u32, NormalParams::new(2.0, 2.0).unwrap());
    theta.insert(3u32, NormalParams::new(3.0, 2.0).unwrap());
    theta.insert(4u32, NormalParams::new(4.0, 2.0).unwrap());

    let mut cs = ClusterSwitch::new(s, theta).unwrap();
    cs.set_s(0, 2u32);
    let new_mu = cs.theta().get(&2u32).unwrap().mu();

    assert_eq!(2.0, new_mu);
}

#[test]
fn new_inverts_the_labels() {
    let cs = ClusterSwitch::new(vec![3u32, 1, 3, 7, 1, 3], HashMap::<u32, u8>::new()).unwrap();
    assert_eq!(cs.s(), &vec![3u32, 1, 3, 7, 1, 3]);
    assert_eq!(cs.clusters_len(), 3);
    assert_eq!(cs.s_inv().get(&3), Some(&set_of(&[0, 2, 5])));
    assert_eq!(cs.s_inv().get(&1), Some(&set_of(&[1, 4])));
    assert_eq!(cs.s_inv().get(&7), Some(&set_of(&[3])));
    assert_eq!(cs.s_inv().get(&2), None);
    assert_eq!(cs.n(3), 3);
    assert_eq!(cs.n(1), 2);
    assert_eq!(cs.n(7), 1);
    assert_eq!(cs.n(2), 0);
    assert_eq!(cs.max_k(), 7);
}

#[test]
fn new_of_nothing_has_no_cluster() {
    let cs = ClusterSwitch::new(Vec::new(), HashMap::<u32, u8>::new()).unwrap();
    assert_eq!(cs.clusters_len(), 0);
    assert_eq!(cs.max_k(), 0);
    assert_eq!(cs.n(1), 0);
}

#[test]
fn new_refuses_label_zero() {
    let refused = ClusterSwitch::new(vec![1u32, 0, 2], HashMap::<u32, u8>::new());
    assert_eq!(refused.err(), Some(ClusterSwitchError::SMustBePositive));
}

#[test]
fn set_s_zero_opens_a_cluster_after_the_largest() {
    let mut cs = four_clusters();
    let label = cs.set_s(1, 0);
    assert_eq!(label, 5);
    assert_eq!(cs.s(), &vec![1u32, 5, 3, 4]);
    assert_eq!(cs.max_k(), 5);
    assert_eq!(cs.clusters_len(), 4);
    assert_eq!(cs.n(2), 0);
    assert_eq!(cs.n(5), 1);
    assert_eq!(cs.s_inv().get(&5), Some(&set_of(&[1])));
    assert!(cs.theta().get(&2).is_none());
    assert!(cs.theta().get(&5).is_none());
}

#[test]
fn set_s_moves_an_observation_and_drops_the_emptied_cluster() {
    let mut cs = four_clusters();
    let label = cs.set_s(0, 2);
    assert_eq!(label, 2);
    assert_eq!(cs.s(), &vec![2u32, 2, 3, 4]);
    assert_eq!(cs.clusters_len(), 3);
    assert_eq!(cs.s_inv().get(&2), Some(&set_of(&[0, 1])));
    assert_eq!(cs.s_inv().get(&1), None);
    assert!(cs.theta().get(&1).is_none());
    assert_eq!(cs.theta().get(&2).unwrap().mu(), 2.0);
    assert_eq!(cs.max_k(), 4);
}

#[test]
fn set_s_keeps_the_parameter_of_a_cluster_that_stays() {
    let mut theta = HashMap::new();
    theta.insert(1u32, 10u8);
    theta.insert(2u32, 20u8);
    let mut cs = ClusterSwitch::new(vec![1u32, 1, 2], theta).unwrap();
    assert_eq!(cs.set_s(0, 2), 2);
    assert_eq!(cs.theta().get(&1), Some(&10));
    assert_eq!(cs.theta().get(&2), Some(&20));
    assert_eq!(cs.n(1), 1);
    assert_eq!(cs.n(2), 2);
}

#[test]
fn set_s_to_the_own_label_of_a_lone_observation_loses_the_parameter() {
    let mut cs = four_clusters();
    assert_eq!(cs.set_s(2, 3), 3);
    assert_eq!(cs.s(), &vec![1u32, 2, 3, 4]);
    assert_eq!(cs.clusters_len(), 4);
    assert_eq!(cs.n(3), 1);
    assert!(cs.theta().get(&3).is_none());
}

#[test]
fn set_s_raises_the_largest_label() {
    let mut cs = four_clusters();
    assert_eq!(cs.set_s(3, 9), 9);
    assert_eq!(cs.max_k(), 9);
    assert_eq!(cs.set_s(0, 0), 10);
    assert_eq!(cs.s(), &vec![10u32, 2, 3, 9]);
}

#[test]
fn set_s_with_theta_gives_the_cluster_its_parameter() {
    let mut cs = four_clusters();
    let label = cs.set_s_with_theta(3, 1, NormalParams::new(7.5, 1.0).unwrap());
    assert_eq!(label, 1);
    assert_eq!(cs.theta().get(&1).unwrap().mu(), 7.5);
    assert!(cs.theta().get(&4).is_none());
    assert_eq!(cs.n(1), 2);
}

#[test]
fn cluster_switch_error_messages() {
    assert_eq!(
        ClusterSwitchError::SMustBePositive.message(),
        "All elements of `s` must be positive"
    );
    assert_eq!(ClusterSwitchError::Unknown.message(), "Unknown error");
}
