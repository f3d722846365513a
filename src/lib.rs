//! A two-phase invocation protocol between programs, and the lock state
//! machine that rides on it.
//!
//! A caller first probes its target for the extra accounts an operation
//! needs, resolves the target's answer against the accounts it was handed,
//! and then invokes the operation with the combined list. The target side
//! answers such probes and locks or unlocks an asset on behalf of its owner
//! or delegate.

pub mod codec;
pub mod crypto;
pub mod dispatch;
pub mod key;
pub mod meta;
pub mod permission;
pub mod resolver;
