//! A reproducible benchmark of Gaussian increments and a mean-reverting
//! process: the integer random streams, the configuration it is driven by,
//! and the statistics over its run times.

pub mod splitmix;
pub mod xorshift;
pub mod polar;
pub mod config;
pub mod args;
pub mod stats;
