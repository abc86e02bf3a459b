//! Decision logic of a cluster-native DNS orchestrator.
//!
//! Zones and Records are declarative resources. For each Record the library
//! works out its fully qualified domain name and the Zone that adopts it; for
//! each Zone it works out the same placement and then the materialized list
//! of entries, with a change-stable hash and a monotonic SOA serial. All of it
//! is plain computation on plain values: whoever talks to the cluster performs
//! the reads and writes that the reconcilers ask for and hands back what it
//! found.

pub mod action;
pub mod delegation;
pub mod digest;
pub mod domain;
pub mod effect;
pub mod ingress;
pub mod pattern;
pub mod placement;
pub mod record;
pub mod resource;
pub mod rr;
pub mod serial;
pub mod text;
pub mod zone;

pub use effect::Effect;
pub use placement::{set_fqdn, set_parent};
