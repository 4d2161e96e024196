//! The agent: its conversation, its tools and what they may do.
pub mod call;
pub mod checkpoint;
pub mod compaction;
pub mod context;
pub mod judged;
pub mod laws;
pub mod message;
pub mod risk;
pub mod session;
pub mod tool;
pub mod trust_policy;
pub mod worktree;
