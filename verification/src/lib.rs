//! The provisioning core of a managed-runtime launcher: picks the best
//! build from a versioned feed under a total order, records and re-checks
//! a per-file integrity manifest over the extracted runtime tree, and
//! resolves coordinate-addressed libraries against a checksum-guarded
//! local cache that heals itself by deleting and refetching on mismatch.
//! Network and filesystem access stay outside; every decision and every
//! byte format here is verified.

#![allow(non_snake_case)]
#![allow(non_camel_case_types)]

pub mod coordinate;
pub mod digest;
pub mod driver;
pub mod logging;
pub mod manifest;
pub mod version;
pub mod walk;
