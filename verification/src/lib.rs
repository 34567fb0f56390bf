//! A declarative-state controller library for a custom application resource.
//!
//! The crate models the resource itself, the admission pipeline that
//! validates and mutates incoming objects, the builder that derives owned
//! child resources, and the reconciliation engine that drives an object
//! store toward the desired state. Every executable function carries a
//! contract describing exactly what it computes or changes.

pub mod kv;
pub mod scheduling;
pub mod clock;
pub mod resource;
pub mod children;
pub mod metrics;
pub mod admission;
pub mod engine;
