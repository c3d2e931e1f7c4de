//! The write and read halves of a shuffle exchange: per-lane write state,
//! the sink that closes every lane and merges what they finalized, and the
//! source that stands in the read slot of the pipeline.

pub mod batch;
pub mod cache;
pub mod error;
pub mod expr;
pub mod laws;
pub mod schema;
pub mod sink;
pub mod source;
pub mod text;
pub mod write_cache;

pub use sink::ShuffleSink;
pub use source::ShuffleSource;
