//! Markov chain Monte Carlo: what the samplers decide between two draws.

pub mod gibbs;
pub mod sir;
