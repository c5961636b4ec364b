use opensrdk_probability::mcmc::gibbs::GibbsSampler;
use opensrdk_probability::mcmc::gibbs::GibbsStep;

#[test]
fn sampler_makes_32_sweeps_unless_told() {
    let sampler = GibbsSampler::new(3);
    assert_eq!(sampler.distributions, 3);
    assert_eq!(sampler.iter, 32);
    let sampler = sampler.with_iter(5);
    assert_eq!(sampler.distributions, 3);
    assert_eq!(sampler.iter, 5);
}

#[test]
fn condition_leaves_out_the_coordinate() {
    let sampler = GibbsSampler::new(4);
    let params = vec![10, 11, 12, 13];
    assert_eq!(sampler.condition(&params, 0), vec![11, 12, 13]);
    assert_eq!(sampler.condition(&params, 1), vec![10, 12, 13]);
    assert_eq!(sampler.condition(&params, 2), vec![10, 11, 13]);
    assert_eq!(sampler.condition(&params, 3), vec![10, 11, 12]);
}

#[test]
fn condition_of_the_only_coordinate_is_empty() {
    let sampler = GibbsSampler::new(1);
    assert_eq!(sampler.condition(&vec![7], 0), Vec::<i32>::new());
}

#[test]
fn condition_on_a_longer_vector() {
    let sampler = GibbsSampler::new(3);
    let params = vec![10, 11, 12, 13, 14];
    assert_eq!(sampler.condition(&params, 0), vec![11, 12, 13, 14]);
    assert_eq!(sampler.condition(&params, 1), vec![10, 12, 13, 14]);
    assert_eq!(sampler.condition(&params, 2), vec![10, 11]);
    let single = GibbsSampler::new(1);
    assert_eq!(single.condition(&params, 0), vec![11, 12, 13, 14]);
}

#[test]
fn run_sweeps_over_the_coordinates_in_order() {
    let sampler = GibbsSampler::new(3).with_iter(2);
    let mut run = sampler.start(vec![0, 0, 0]);
    let mut order = Vec::new();
    let mut conditions = Vec::new();
    let mut value = 0;
    loop {
        match sampler.next(&run) {
            GibbsStep::Draw { coordinate, condition } => {
                order.push(coordinate);
                conditions.push(condition);
                value += 1;
                assert!(sampler.record(&mut run, value));
            }
            GibbsStep::Finished => break,
        }
    }
    assert_eq!(order, vec![0, 1, 2, 0, 1, 2]);
    assert_eq!(
        conditions,
        vec![vec![0, 0], vec![1, 0], vec![1, 2], vec![2, 3], vec![4, 3], vec![4, 5]]
    );
    assert_eq!(run.params(), &vec![4, 5, 6]);
    assert!(!sampler.record(&mut run, 99));
    assert_eq!(run.into_params(), vec![4, 5, 6]);
}

#[test]
fn run_without_sweeps_or_coordinates_is_finished_at_once() {
    let idle = GibbsSampler::new(3).with_iter(0);
    let mut run = idle.start(vec![1, 2]);
    assert!(matches!(idle.next(&run), GibbsStep::Finished));
    assert!(!idle.record(&mut run, 5));
    assert_eq!(run.into_params(), vec![1, 2]);

    let empty = GibbsSampler::new(0);
    let run = empty.start(Vec::<u8>::new());
    assert!(matches!(empty.next(&run), GibbsStep::Finished));
    assert_eq!(run.into_params(), Vec::<u8>::new());
}

#[test]
fn run_makes_one_draw_per_coordinate_and_sweep() {
    let sampler = GibbsSampler::new(4);
    let mut run = sampler.start(vec![0u8; 4]);
    let mut draws = 0;
    while let GibbsStep::Draw { .. } = sampler.next(&run) {
        draws += 1;
        sampler.record(&mut run, 1);
    }
    assert_eq!(draws, 32 * 4);
}
