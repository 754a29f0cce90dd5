//! Resource access declarations and runtime borrow tracking for a
//! data-oriented runtime.
//!
//! Independently scheduled units of work ("systems") declare shared or
//! exclusive access to process-wide singleton state ("resources") and
//! per-system private state. Each request exposes a static access summary
//! (`TypeAccess`) that an external scheduler uses to pick non-conflicting
//! groups, and the store (`Resources`) tracks borrows at runtime as a safety
//! net. Heterogeneous groups of requests compose through `CompositeFetch`.
//!
//! Resource types are identified by a plain numeric type identity, and the
//! stored values are plain machine words: the store models the slot and
//! counter discipline, not the arbitrary payloads an archetype storage
//! would carry.

pub mod access;
pub mod composite;
pub mod fetch;
pub mod handles;
pub mod store;
