//! Chat-history compaction: renders a structured history-summary payload into
//! a single nested-tag text block and rewrites a history list in place so that
//! everything before the most recent compaction checkpoint is discarded.
#![verifier::loop_isolation(false)]

pub mod compact;
pub mod laws;
pub mod node;
pub mod render;
pub mod summary;
pub mod text;
