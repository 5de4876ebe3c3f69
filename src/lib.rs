//! Sequential block I/O benchmarking: command resolution, the timed block
//! loop, and the pattern round-trip integrity test.

pub mod bench;
pub mod cli;
pub mod integrity;
