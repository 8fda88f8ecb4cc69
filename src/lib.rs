//! Repeated execution of an external program across a pool of workers:
//! how the repetitions are split, what each worker decides between runs,
//! how the counts are combined, and how the summary reads.

pub mod distribution;
pub mod worker;
pub mod aggregate;
pub mod summary;
pub mod laws;
