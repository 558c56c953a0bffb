//! An evolutionary-search engine: a population of candidate solutions is
//! evolved toward a fixed target by fitness-proportionate selection,
//! single-point crossover and per-unit mutation.

pub mod config;
pub mod dna_string;
pub mod genotype;
pub mod population;
pub mod rng;
