//! The shape of the two covariance engines of an elliptical process.
//!
//! An engine represents the covariance `K_XX + sigma^2 I` of `n` observations.
//! The numbers in it are floating point and live outside this crate; what is
//! decided here is every count that the engines are built on: whether the
//! observations are acceptable at all, how many of them there are, the
//! inducing grid, the rank of the Krylov bases and the number of eigenvalues
//! that the determinant estimate keeps.

pub mod grid;

use grid::uniform_counts;
use grid::volume;
use grid::Grid;
use vstd::prelude::*;

verus! {

/// Iteration cap of every conjugate-gradient solve of the structured engine,
/// unless another is asked for.
pub const SOLVER_ITERATIONS: usize = 100;

/// Largest rank of a Lanczos tridiagonalisation in the structured engine.
pub const RANK_LIMIT: usize = 100;

/// The ways in which building or querying a covariance engine fails.
#[derive(Clone, Copy, Debug, PartialEq, Eq, Structural)]
pub enum EllipticalProcessError {
    /// There are no observations, or the inputs have no parts or no features.
    EmptyData,
    /// The number of outputs differs from the number of inputs.
    DimensionMismatch,
    /// The covariance has no Cholesky factor.
    NotPositiveDefinite,
    /// A determinant or an eigenvalue is not a finite number.
    NaNContamination,
    /// An iterative solve used up its iterations with a large residual.
    ConvergenceFailure,
    /// Any other failure of a linear-algebra primitive.
    LinearAlgebraFailure,
}

impl EllipticalProcessError {
    /// The text that describes the error to a person.
    pub open spec fn description(self) -> Seq<char> {
        match self {
            EllipticalProcessError::EmptyData => "Data is empty."@,
            EllipticalProcessError::DimensionMismatch => "Dimension mismatch."@,
            EllipticalProcessError::NotPositiveDefinite => "Matrix is not positive definite."@,
            EllipticalProcessError::NaNContamination => "NaN contaminated."@,
            EllipticalProcessError::ConvergenceFailure => "Solver did not converge."@,
            EllipticalProcessError::LinearAlgebraFailure => "Linear algebra failed."@,
        }
    }

    /// The description as a string.
    pub fn message(&self) -> (text: String)
        ensures
            text@ == self.description(),
    {
        match self {
            EllipticalProcessError::EmptyData => "Data is empty.".to_owned(),
            EllipticalProcessError::DimensionMismatch => "Dimension mismatch.".to_owned(),
            EllipticalProcessError::NotPositiveDefinite => "Matrix is not positive definite.".to_owned(),
            EllipticalProcessError::NaNContamination => "NaN contaminated.".to_owned(),
            EllipticalProcessError::ConvergenceFailure => "Solver did not converge.".to_owned(),
            EllipticalProcessError::LinearAlgebraFailure => "Linear algebra failed.".to_owned(),
        }
    }
}

/// What comes of checking `outputs` observed values against `inputs` inputs:
/// no observation at all is `EmptyData`, a different count is
/// `DimensionMismatch`, anything else passes.
pub open spec fn observation_check(inputs: nat, outputs: nat) -> Result<(), EllipticalProcessError> {
    if outputs == 0 {
        Err(EllipticalProcessError::EmptyData)
    } else if outputs != inputs {
        Err(EllipticalProcessError::DimensionMismatch)
    } else {
        Ok(())
    }
}

/// Checks the number of observed outputs against the number of inputs.
pub fn check_observations(inputs: usize, outputs: usize) -> (checked: Result<
    (),
    EllipticalProcessError,
>)
    ensures
        checked == observation_check(inputs as nat, outputs as nat),
{
    if outputs == 0 {
        Err(EllipticalProcessError::EmptyData)
    } else if outputs != inputs {
        Err(EllipticalProcessError::DimensionMismatch)
    } else {
        Ok(())
    }
}

/// What comes of checking a matrix of `rows` rows, or a vector of as many
/// entries, against an engine of dimension `n`.
pub open spec fn row_check(n: nat, rows: nat) -> Result<(), EllipticalProcessError> {
    if rows == n {
        Ok(())
    } else {
        Err(EllipticalProcessError::DimensionMismatch)
    }
}

/// The shape of the exact engine: a dense `n` by `n` Cholesky factor, a mean
/// of `n` equal entries and a solved vector of length `n`.
#[derive(Clone, Copy, Debug, PartialEq, Eq, Structural)]
pub struct ExactLayout {
    dimension: usize,
}

impl View for ExactLayout {
    type V = nat;

    closed spec fn view(&self) -> nat {
        self.dimension as nat
    }
}

impl ExactLayout {
    #[verifier::type_invariant]
    spec fn populated(self) -> bool {
        self.dimension > 0
    }

    /// Lays out the engine for `outputs` observations of `inputs` inputs.
    pub fn new(inputs: usize, outputs: usize) -> (layout: Result<
        ExactLayout,
        EllipticalProcessError,
    >)
        ensures
            outputs == 0 ==> layout == Err::<ExactLayout, _>(EllipticalProcessError::EmptyData),
            outputs != 0 && outputs != inputs ==> layout == Err::<ExactLayout, _>(
                EllipticalProcessError::DimensionMismatch,
            ),
            outputs != 0 && outputs == inputs ==> layout is Ok && layout->Ok_0@ == outputs,
    {
        match check_observations(inputs, outputs) {
            Ok(()) => Ok(ExactLayout { dimension: outputs }),
            Err(e) => Err(e),
        }
    }

    /// The size `n` of the random vector, which is also the number of rows
    /// and of columns of the Cholesky factor.
    pub fn dimension(&self) -> (n: usize)
        ensures
            n == self@,
            n > 0,
    {
        proof {
            use_type_invariant(self);
        }
        self.dimension
    }

    /// Checks that a matrix to solve against, or a vector of variates to
    /// draw from, has `rows` rows, one per observation.
    pub fn check_rows(&self, rows: usize) -> (checked: Result<(), EllipticalProcessError>)
        ensures
            checked == row_check(self@, rows as nat),
    {
        if rows == self.dimension {
            Ok(())
        } else {
            Err(EllipticalProcessError::DimensionMismatch)
        }
    }
}

/// The counts that determine a structured engine.
pub struct KissLoveShape {
    /// The number `n` of observations.
    pub dimension: nat,
    /// The number of parts that each input decomposes into.
    pub parts: nat,
    /// The number of inducing points on each axis of the grid.
    pub grid: Seq<usize>,
    /// The iteration cap of every conjugate-gradient solve.
    pub iterations: nat,
}

/// The shape of the structured engine for `outputs` observations of `inputs`
/// inputs, each of `parts` parts of `features` features, or the reason why
/// there is none. The observations are checked first, then the inputs, then
/// the size of the grid. The solves are capped at `SOLVER_ITERATIONS`.
pub open spec fn kiss_love_shape(inputs: nat, outputs: nat, parts: nat, features: nat) -> Result<
    KissLoveShape,
    EllipticalProcessError,
> {
    if outputs == 0 {
        Err(EllipticalProcessError::EmptyData)
    } else if outputs != inputs {
        Err(EllipticalProcessError::DimensionMismatch)
    } else if parts == 0 || features == 0 {
        Err(EllipticalProcessError::EmptyData)
    } else if volume(uniform_counts(outputs, features)) > usize::MAX {
        Err(EllipticalProcessError::LinearAlgebraFailure)
    } else {
        Ok(
            KissLoveShape {
                dimension: outputs,
                parts,
                grid: uniform_counts(outputs, features),
                iterations: SOLVER_ITERATIONS as nat,
            },
        )
    }
}

/// The rank of the Krylov basis of an operator on vectors of length `n`:
/// `n` itself up to the rank limit.
pub open spec fn krylov_rank(n: nat) -> nat {
    if n < RANK_LIMIT {
        n
    } else {
        RANK_LIMIT as nat
    }
}

/// The shape of the structured engine: `n` observations, one sparse weight
/// matrix per part, the inducing grid whose Kronecker covariance has `m` rows,
/// and the rank of the Krylov basis.
#[derive(Debug)]
pub struct KissLoveLayout {
    dimension: usize,
    parts: usize,
    grid: Grid,
    iterations: usize,
}

impl View for KissLoveLayout {
    type V = KissLoveShape;

    closed spec fn view(&self) -> KissLoveShape {
        KissLoveShape {
            dimension: self.dimension as nat,
            parts: self.parts as nat,
            grid: self.grid@,
            iterations: self.iterations as nat,
        }
    }
}

impl Clone for KissLoveLayout {
    fn clone(&self) -> (copy: Self)
        ensures
            copy@ == self@,
    {
        proof {
            use_type_invariant(self);
        }
        KissLoveLayout {
            dimension: self.dimension,
            parts: self.parts,
            grid: self.grid.clone(),
            iterations: self.iterations,
        }
    }
}

impl KissLoveLayout {
    #[verifier::type_invariant]
    spec fn populated(self) -> bool {
        self.dimension > 0 && self.parts > 0
    }

    /// Lays out the engine for `outputs` observations of `inputs` inputs, each
    /// of `parts` parts of `features` features.
    pub fn new(inputs: usize, outputs: usize, parts: usize, features: usize) -> (layout: Result<
        KissLoveLayout,
        EllipticalProcessError,
    >)
        ensures
            outputs == 0 ==> layout == Err::<KissLoveLayout, _>(EllipticalProcessError::EmptyData),
            outputs != 0 && outputs != inputs ==> layout == Err::<KissLoveLayout, _>(
                EllipticalProcessError::DimensionMismatch,
            ),
            match kiss_love_shape(inputs as nat, outputs as nat, parts as nat, features as nat) {
                Ok(shape) => layout is Ok && layout->Ok_0@ == shape,
                Err(e) => layout == Err::<KissLoveLayout, _>(e),
            },
    {
        match check_observations(inputs, outputs) {
            Ok(()) => {},
            Err(e) => {
                return Err(e);
            },
        }
        if parts == 0 || features == 0 {
            return Err(EllipticalProcessError::EmptyData);
        }
        match Grid::for_inputs(outputs, features) {
            Ok(grid) => Ok(
                KissLoveLayout { dimension: outputs, parts, grid, iterations: SOLVER_ITERATIONS },
            ),
            Err(e) => Err(e),
        }
    }

    /// The same layout with conjugate-gradient solves of `iterations`
    /// iterations.
    pub fn with_iterations(self, iterations: usize) -> (layout: Self)
        ensures
            layout@ == (KissLoveShape { iterations: iterations as nat, ..self@ }),
    {
        proof {
            use_type_invariant(&self);
        }
        KissLoveLayout {
            dimension: self.dimension,
            parts: self.parts,
            grid: self.grid,
            iterations,
        }
    }

    /// The same layout over `grid` in place of the grid that the number of
    /// observations gave. A grid of another number of axes is a
    /// `DimensionMismatch`.
    pub fn with_grid(self, grid: Grid) -> (layout: Result<Self, EllipticalProcessError>)
        ensures
            match layout {
                Ok(l) => grid@.len() == self@.grid.len() && l@ == (KissLoveShape {
                    grid: grid@,
                    ..self@
                }),
                Err(e) => grid@.len() != self@.grid.len() && e
                    == EllipticalProcessError::DimensionMismatch,
            },
    {
        proof {
            use_type_invariant(&self);
        }
        if grid.dimension() != self.grid.dimension() {
            return Err(EllipticalProcessError::DimensionMismatch);
        }
        Ok(
            KissLoveLayout {
                dimension: self.dimension,
                parts: self.parts,
                grid,
                iterations: self.iterations,
            },
        )
    }

    /// The iteration cap of every conjugate-gradient solve.
    pub fn iterations(&self) -> (cap: usize)
        ensures
            cap == self@.iterations,
    {
        self.iterations
    }

    /// The size `n` of the random vector.
    pub fn dimension(&self) -> (n: usize)
        ensures
            n == self@.dimension,
            n > 0,
    {
        proof {
            use_type_invariant(self);
        }
        self.dimension
    }

    /// Checks that a matrix to solve against has `rows` rows, one per
    /// observation.
    pub fn check_rows(&self, rows: usize) -> (checked: Result<(), EllipticalProcessError>)
        ensures
            checked == row_check(self@.dimension, rows as nat),
    {
        if rows == self.dimension {
            Ok(())
        } else {
            Err(EllipticalProcessError::DimensionMismatch)
        }
    }

    /// The number of sparse weight matrices, one per part of an input.
    pub fn parts(&self) -> (p: usize)
        ensures
            p == self@.parts,
            p > 0,
    {
        proof {
            use_type_invariant(self);
        }
        self.parts
    }

    /// The inducing grid.
    pub fn grid(&self) -> (grid: &Grid)
        ensures
            grid@ == self@.grid,
    {
        &self.grid
    }

    /// The rank `k` of the Krylov basis of the implicit operator.
    pub fn rank(&self) -> (k: usize)
        ensures
            k == krylov_rank(self@.dimension),
            0 < k <= self@.dimension,
    {
        proof {
            use_type_invariant(self);
        }
        if self.dimension < RANK_LIMIT {
            self.dimension
        } else {
            RANK_LIMIT
        }
    }

    /// The number `m - n` of smallest eigenvalues of the circulant embedding
    /// that the determinant estimate leaves out. A grid of fewer points than
    /// there are observations has no such estimate: `LinearAlgebraFailure`.
    pub fn discarded_eigenvalues(&self) -> (discarded: Result<usize, EllipticalProcessError>)
        ensures
            match discarded {
                Ok(d) => d + self@.dimension == volume(self@.grid),
                Err(e) => {
                    &&& e == EllipticalProcessError::LinearAlgebraFailure
                    &&& volume(self@.grid) < self@.dimension
                },
            },
    {
        let m = self.grid.size();
        if m < self.dimension {
            Err(EllipticalProcessError::LinearAlgebraFailure)
        } else {
            Ok(m - self.dimension)
        }
    }
}

} // verus!
