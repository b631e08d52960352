//! What each command of the program decides and computes.

pub mod purge;
pub mod snakemake;
pub mod status;
pub mod worker;
