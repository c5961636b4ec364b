//! Discrete distributions: what they count and choose.

pub mod bernoulli;
pub mod binominal;
pub mod poisson;
pub mod uniform;
