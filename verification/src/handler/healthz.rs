//! The liveness endpoint. It carries no state and makes no decision; the
//! HTTP layer around the library wires its route and answers with an empty
//! response.

use vstd::prelude::*;

verus! {

/// Marker for the liveness endpoint.
pub struct Healthz {}

} // verus!
