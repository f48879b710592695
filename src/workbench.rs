//! An earlier, smaller engine: commands given as shell lines or word lists.
pub mod config;
pub mod runner;
