//! The integer core of a library of probability distributions over
//! elliptical covariance models.
//!
//! A covariance engine, exact or structured, computes in floating point.
//! What it computes on is a matter of counts and indices, and those are
//! decided here, with proofs: which observations an engine accepts, the
//! dimension of the random vector, the inducing grid as an ordered Cartesian
//! product with the points that carry the interpolation weights of an input,
//! the rank of the Krylov bases and the eigenvalues that the determinant
//! estimate leaves out.
//!
//! Around the engines stand the cluster labels of a Dirichlet-process
//! mixture, the schedule of a Gibbs sampler, the pool of a particle filter
//! and the integers of the discrete distributions.

pub mod continuous;
pub mod discrete;
pub mod instant_conditional;
pub mod mcmc;
pub mod nonparametric;

pub use discrete::uniform::DiscreteUniform;
pub use mcmc::gibbs::GibbsSampler;
pub use nonparametric::cluster_switch::ClusterSwitch;
pub use nonparametric::elliptical_process::grid::Grid;
pub use nonparametric::elliptical_process::EllipticalProcessError;
pub use nonparametric::elliptical_process::ExactLayout;
pub use nonparametric::elliptical_process::KissLoveLayout;
