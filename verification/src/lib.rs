//! Core logic of a command-line micro-benchmark: how many runs to make, how a
//! timing session proceeds, and how its report is laid out.

pub mod config;
pub mod failure;
pub mod invocation;
pub mod report;
pub mod runner;
pub mod sample;
