//! A host for sandboxed plugins.
//!
//! The crate holds the rules by which a host admits plugin modules and serves
//! them: the severity order of the logging capability, the per-instance table
//! of capability handles with its ownership discipline, the lifecycle of one
//! plugin instance, and the registry that assigns identifiers and records
//! descriptors and failures. Compiling and running a module is the work of the
//! embedding program; it reports what happened and asks here what to do next.

pub mod discovery;
pub mod host;
pub mod level;
pub mod lifecycle;
pub mod sandbox;
pub mod state;
pub mod store;
pub mod table;
