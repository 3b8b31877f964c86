//! Just-intonation interval sequences that drift in tuning.
//!
//! The library searches for signed combinations of three generator
//! intervals (major third 5/4, perfect fourth 4/3, perfect fifth 3/2)
//! that reproduce a target number of chromatic half-steps, brackets a
//! frequency ratio of one from below and above with tuning-neutral
//! combinations, and spreads the resulting interval tokens evenly with
//! a virtual-time fair scheduler.

pub mod drift;
pub mod interval_sequences;
pub mod interval_set;
pub mod intervals;
pub mod just_intervals;
pub mod notes;
pub mod notevalues;
pub mod ratio;
pub mod vector_distributor;
