//! The schedule of a Gibbs sampler.
//!
//! A Gibbs sampler sweeps over the coordinates of a parameter vector. Each
//! coordinate is drawn anew from its conditional distribution, given the
//! other coordinates. The draws themselves are made elsewhere; the sampler
//! here says which coordinate is next and on what it is conditioned, and
//! takes the value drawn.

use vstd::prelude::*;

verus! {

/// The parameters on which coordinate `i` of `n` is conditioned: all but
/// the `i`-th. Where the vector is longer than `n` and `i` is the last
/// coordinate but not the first, what follows it is left out as well.
pub open spec fn others<T>(params: Seq<T>, i: int, n: int) -> Seq<T> {
    if 0 < i && i == n - 1 {
        params.take(i)
    } else {
        params.remove(i)
    }
}

/// A Gibbs sampler over a number of coordinates, with the number of sweeps
/// that it makes.
#[derive(Clone, Copy, Debug, PartialEq, Eq, Structural)]
pub struct GibbsSampler {
    /// The number of coordinates, one conditional distribution each.
    pub distributions: usize,
    /// The number of sweeps over all coordinates.
    pub iter: usize,
}

/// How far a run of the sampler has come.
pub struct GibbsProgress<T> {
    /// The parameter vector as it stands.
    pub params: Seq<T>,
    /// The number of sweeps that are complete.
    pub sweep: nat,
    /// The coordinate that is drawn next.
    pub coordinate: nat,
}

/// A run of the sampler: the parameter vector and the place in the schedule.
#[derive(Debug)]
pub struct GibbsRun<T> {
    params: Vec<T>,
    sweep: usize,
    coordinate: usize,
}

impl<T> View for GibbsRun<T> {
    type V = GibbsProgress<T>;

    closed spec fn view(&self) -> GibbsProgress<T> {
        GibbsProgress {
            params: self.params@,
            sweep: self.sweep as nat,
            coordinate: self.coordinate as nat,
        }
    }
}

/// What the sampler asks for next.
#[derive(Debug)]
pub enum GibbsStep<T> {
    /// A draw of `coordinate` from its distribution under `condition`.
    Draw { coordinate: usize, condition: Vec<T> },
    /// Nothing: every sweep is complete.
    Finished,
}

impl GibbsSampler {
    /// A sampler over `distributions` coordinates that makes 32 sweeps.
    pub fn new(distributions: usize) -> (sampler: Self)
        ensures
            sampler == (GibbsSampler { distributions, iter: 32 }),
    {
        Self { distributions, iter: 32 }
    }

    /// The same sampler with `iter` sweeps.
    pub fn with_iter(self, iter: usize) -> (sampler: Self)
        ensures
            sampler == (GibbsSampler { distributions: self.distributions, iter }),
    {
        let mut sampler = self;
        sampler.iter = iter;
        sampler
    }

    /// No draw is left to make.
    pub open spec fn finished<T>(self, progress: GibbsProgress<T>) -> bool {
        self.distributions == 0 || progress.sweep >= self.iter
    }

    /// The run is one of this sampler: its place is in the schedule, and
    /// while draws are left the vector has a parameter for each coordinate.
    pub open spec fn admits<T>(self, progress: GibbsProgress<T>) -> bool {
        !self.finished(progress) ==> {
            &&& progress.coordinate < self.distributions
            &&& progress.params.len() >= self.distributions
        }
    }

    /// The number of draws that are left to make.
    pub open spec fn draws_left<T>(self, progress: GibbsProgress<T>) -> nat {
        if self.finished(progress) {
            0
        } else {
            ((self.iter - progress.sweep) * self.distributions - progress.coordinate) as nat
        }
    }

    /// The progress after `value` was drawn for the coordinate that was next.
    pub open spec fn advanced<T>(self, progress: GibbsProgress<T>, value: T) -> GibbsProgress<T> {
        GibbsProgress {
            params: progress.params.update(progress.coordinate as int, value),
            sweep: if progress.coordinate + 1 == self.distributions {
                progress.sweep + 1
            } else {
                progress.sweep
            },
            coordinate: if progress.coordinate + 1 == self.distributions {
                0
            } else {
                progress.coordinate + 1
            },
        }
    }

    /// Starts a run from `initial`. A sampler that has draws to make needs a
    /// parameter for every coordinate.
    pub fn start<T>(&self, initial: Vec<T>) -> (run: GibbsRun<T>)
        requires
            self.distributions == 0 || self.iter == 0 || initial@.len() >= self.distributions,
        ensures
            run@ == (GibbsProgress { params: initial@, sweep: 0, coordinate: 0 }),
            self.admits(run@),
    {
        GibbsRun { params: initial, sweep: 0, coordinate: 0 }
    }

    /// The parameters on which coordinate `i` is conditioned, each a clone
    /// of the parameter it stands for.
    pub fn condition<T: Clone>(&self, params: &Vec<T>, i: usize) -> (condition: Vec<T>)
        requires
            i < self.distributions <= params@.len(),
        ensures
            condition@.len() == others(params@, i as int, self.distributions as int).len(),
            forall|j: int|
                0 <= j < condition@.len() ==> cloned(
                    #[trigger] others(params@, i as int, self.distributions as int)[j],
                    condition@[j],
                ),
    {
        let ghost wanted = others(params@, i as int, self.distributions as int);
        let end = if 0 < i && i == self.distributions - 1 {
            i
        } else {
            params.len()
        };
        let mut condition: Vec<T> = Vec::new();
        let mut j: usize = 0;
        while j < end
            invariant
                j <= end <= params@.len(),
                i < params@.len(),
                end == i || end == params@.len(),
                wanted == others(params@, i as int, self.distributions as int),
                wanted.len() == if end == i {
                    i as int
                } else {
                    params@.len() - 1
                },
                forall|a: int|
                    0 <= a < wanted.len() ==> #[trigger] wanted[a] == params@[if a < i {
                        a
                    } else {
                        a + 1
                    }],
                condition@.len() == if j <= i {
                    j as int
                } else {
                    j - 1
                },
                forall|a: int| 0 <= a < condition@.len() ==> cloned(#[trigger] wanted[a], condition@[a]),
            decreases end - j,
        {
            if j != i {
                condition.push(params[j].clone());
            }
            j += 1;
        }
        condition
    }

    /// What the run asks for next: a draw of the coordinate that is due,
    /// conditioned on the other parameters, or nothing once every sweep is
    /// complete.
    pub fn next<T: Clone>(&self, run: &GibbsRun<T>) -> (step: GibbsStep<T>)
        requires
            self.admits(run@),
        ensures
            match step {
                GibbsStep::Draw { coordinate, condition } => {
                    let wanted = others(run@.params, coordinate as int, self.distributions as int);
                    &&& !self.finished(run@)
                    &&& coordinate == run@.coordinate
                    &&& condition@.len() == wanted.len()
                    &&& forall|j: int|
                        0 <= j < condition@.len() ==> cloned(#[trigger] wanted[j], condition@[j])
                },
                GibbsStep::Finished => self.finished(run@),
            },
    {
        if self.distributions == 0 || run.sweep >= self.iter {
            GibbsStep::Finished
        } else {
            let condition = self.condition(&run.params, run.coordinate);
            GibbsStep::Draw { coordinate: run.coordinate, condition }
        }
    }

    /// Takes `value` for the coordinate that is due and moves on to the next
    /// one. A finished run stays as it is, and the answer is `false`.
    pub fn record<T>(&self, run: &mut GibbsRun<T>, value: T) -> (taken: bool)
        requires
            self.admits(old(run)@),
        ensures
            taken == !self.finished(old(run)@),
            taken ==> final(run)@ == self.advanced(old(run)@, value),
            taken ==> self.draws_left(final(run)@) + 1 == self.draws_left(old(run)@),
            !taken ==> final(run)@ == old(run)@,
            self.admits(final(run)@),
    {
        if self.distributions == 0 || run.sweep >= self.iter {
            return false;
        }
        proof {
            let sweeps = self.iter - run.sweep;
            let width = self.distributions as int;
            assert((sweeps - 1) * width == sweeps * width - width && sweeps * width >= width) by (nonlinear_arith)
                requires
                    sweeps >= 1,
                    width >= 0,
            ;
            assert((self.iter - (run.sweep + 1)) * self.distributions == (sweeps - 1) * width);
            assert(1 * width == width);
        }
        run.params.set(run.coordinate, value);
        if run.coordinate + 1 == self.distributions {
            run.coordinate = 0;
            run.sweep = run.sweep + 1;
        } else {
            run.coordinate = run.coordinate + 1;
        }
        true
    }
}

impl<T> GibbsRun<T> {
    /// The parameter vector as it stands.
    pub fn params(&self) -> (params: &Vec<T>)
        ensures
            params@ == self@.params,
    {
        &self.params
    }

    /// Ends the run and hands out the parameter vector.
    pub fn into_params(self) -> (params: Vec<T>)
        ensures
            params@ == self@.params,
    {
        self.params
    }
}

} // verus!
