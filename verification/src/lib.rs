//! A fine-grained reactive state core: mutable signal cells that notify the
//! computations which read them.
//!
//! The crate keeps the whole reactive graph in one explicit [`runtime::Runtime`]
//! value: the signal cells, a registry of callback lifecycles standing in for
//! weak references, and the stack of currently running computations used for
//! implicit dependency tracking. Handles ([`handles::StaticSignal`],
//! [`handles::DynSignal`] and their read-only views) are small identities into
//! that runtime. Propagation is split into a decision part, verified here
//! (which callbacks fire, in what order, and which are skipped), and the
//! invocation of the host's closures, which the host layer drives.

pub mod callback;
pub mod submap;
pub mod signal;
pub mod tracker;
pub mod runtime;
pub mod handles;
