//! Probe-and-emit stage of a streaming full outer equi-join: right batches are
//! matched against a sharded hash index over the left side, and the left rows
//! that never matched are emitted once the stream has ended.

pub mod chunk_id;
pub mod hash_index;
pub mod hasher;
pub mod idx_buffer;
pub mod laws;
pub mod probe;
pub mod tracker;

pub use chunk_id::ChunkId;
pub use hash_index::{Entry, HashIndex};
pub use probe::{AssemblyPlan, GenericFullOuterJoinProbe, JoinConfig, KeyRow, Phase};
pub use tracker::MatchTracker;
