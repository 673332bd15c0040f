//! Instance allocation and startup acceleration for a sandboxed module engine.
//!
//! A compiled [`module::Module`] is bound to storage by an
//! [`allocator::Allocator`], either on demand or from a pool of reusable
//! slots, runs inside a capability-scoped [`sandbox::SandboxContext`], and may
//! start from a [`module::SnapshotImage`] captured after a one-time
//! initializer.
pub mod limits;
pub mod outcome;
pub mod sandbox;
pub mod module;
pub mod instance;
pub mod allocator;
pub mod snapshot;
pub mod laws;
pub mod markdown;
pub mod spelling;
