//! A small attestation sidecar library.
//!
//! The library holds the verified core of an HTTP sidecar that forwards
//! requests to a hardware-attestation client: configuration loading and
//! bind-address rendering, query-payload selection, and the JSON bodies
//! of every route. The HTTP server, the attestation client calls and all
//! other I/O live outside the library and hand it plain values.

pub mod config;
pub mod handlers;
pub mod json;

use vstd::prelude::*;

verus! {

/// The fixed name under which the sidecar reports itself.
pub open spec fn spec_service_name() -> Seq<char> {
    "dstack-quote-sidecar"@
}

} // verus!
