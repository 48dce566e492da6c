//! Domain-name syntax checking and a single-flight TLD validation coordinator.
//!
//! A [`domain::Domain`] is an immutable, syntax-checked, lowercase-normalized
//! domain name. A [`snapshot::TldSnapshot`] is an immutable set of lowercase
//! top-level domains parsed from a line-oriented registry listing. The
//! [`validator::DomainValidator`] owns the live snapshot and arbitrates
//! validation requests: a hit in the snapshot is accepted locally, a miss may
//! start or join a single in-flight refresh of the snapshot, and a miss after
//! a completed refresh is authoritative.

pub mod text;
pub mod ip;
pub mod domain;
pub mod snapshot;
pub mod validator;
pub mod laws;
pub mod utils;
