//! Verified engine for migrating browsing-history records into a
//! places-style history store.
//!
//! The crate models the destination's data as plain values and proves the
//! identity rules the store relies on: the 64-bit URL hash, origin and place
//! resolution, visit deduplication, and the batched import driver.

use vstd::prelude::*;

pub mod driver;
pub mod guid;
pub mod hash;
pub mod laws;
pub mod model;
pub mod store;
pub mod urlinfo;

verus! {

/// A failure while transforming one history entry.
///
/// `MissingProtocol`: the URL string holds no `:` separator, so no hash can
/// be computed. `OpaqueOrigin`: the URL's origin is not expressible as
/// scheme, host and port, so no origin row can be resolved. `MissingHost`:
/// the URL has no host, so no reversed-host column can be computed for a
/// new place row.
#[derive(Clone, Copy, Debug, PartialEq, Eq, Structural)]
pub enum ImportError {
    MissingProtocol,
    OpaqueOrigin,
    MissingHost,
}

} // verus!
