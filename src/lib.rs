//! Orchestration of the post-link rewriting of a WebAssembly artifact: which
//! artifacts qualify, when earlier output is still fresh, and the fixed order
//! of the rewriting steps, including the unlink that keeps hard-linked copies
//! of the artifact intact.
pub mod laws;
pub mod path;
pub mod pipeline;
pub mod target;
