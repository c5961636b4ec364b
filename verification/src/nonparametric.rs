//! Nonparametric models: elliptical processes and Dirichlet-process
//! mixtures.

pub mod cluster_switch;
pub mod elliptical_process;
pub mod gaussian_process;
