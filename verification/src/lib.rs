//! A verified core of a shuffle-writer stage of a columnar query engine,
//! together with a streaming variance accumulator.
//!
//! The shuffle writer accepts the record batches of one input partition,
//! re-partitions their rows across output partitions with a deterministic
//! hash, tracks per-sink statistics, and describes the produced partitions
//! in a metadata batch. The variance accumulator implements Welford's online
//! algorithm with pairwise merging of partial states.

pub mod arith;
pub mod batch;
pub mod error;
pub mod expr;
pub mod float_ops;
pub mod fmtnum;
pub mod hashing;
pub mod repartition;
pub mod schema;
pub mod stats;
pub mod variance;
pub mod writer;

pub use error::EngineError;
