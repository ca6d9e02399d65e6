//! Verified core of an operator-facing tool for administering object-storage
//! buckets: bucket-name validation, decoding of lifecycle transition
//! specifications, upsert-by-id reconciliation of lifecycle rule sets, and
//! sequential planning of bucket-configuration facet updates.
//!
//! All remote I/O is performed by an unverified front end; this crate makes
//! every decision (what is valid, what to write, in which order) as pure,
//! contract-checked functions over plain values.

pub mod facets;
pub mod lifecycle;
pub mod transitions;
pub mod validate;

mod strutil;
