//! Sizing a directory tree with a pool of workers that share one queue of
//! directories: the byte and item totals, the scan of one directory's
//! entries, the life of a worker, the final report, and the proofs that the
//! grand total depends neither on the order of the scans nor on the worker
//! that made each.

pub mod channel;
pub mod frontier;
pub mod pool;
pub mod report;
pub mod root;
pub mod scan;
pub mod stats;
