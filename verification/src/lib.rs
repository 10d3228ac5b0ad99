//! Replays a git branch's linearized history onto a CVS checkout: branch
//! names are sanitised into a CVS-safe alphabet, the ancestry is flattened
//! along first parents, each commit's tree is diffed against the state of
//! the previous one, and the resulting add, remove and commit operations are
//! planned with their argument lists batched under the platform's limit.

pub mod chunker;
pub mod cvs;
pub mod database;
pub mod engine;
pub mod errors;
pub mod git;
pub mod sanitise;
pub mod state;

pub use sanitise::sanitise_branch;
