//! What the request log attaches to each request.

use vstd::prelude::*;

verus! {

/// A unique ID assigned to each inbound request
#[derive(Debug, Clone, Copy, PartialEq, Eq)]
pub struct RequestID(pub u32);

} // verus!
