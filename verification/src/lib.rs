//! Branch graph and lifecycle engine for a local version-control repository.
//!
//! The crate models branches as plain records (name, tip commit id, last
//! commit time, last author), classifies them by staleness against a policy,
//! reconstructs a one-hop ancestry relation between branch tips, and drives a
//! guarded deletion workflow as a state machine.  All repository, terminal and
//! file access stays outside the crate; callers hand in plain values and
//! perform the actions the workflow asks for.

pub mod age;
pub mod ancestry;
pub mod classify;
pub mod cleanup;
pub mod collect;
pub mod config;
pub mod error;
pub mod listing;
pub mod record;
