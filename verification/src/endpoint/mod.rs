//! Routing endpoints: a session can be pinned to one upstream of a model, so
//! that every turn finds the upstream's prefix cache warm.

pub mod picker_entry;

use vstd::prelude::*;

verus! {

/// A pinned routing endpoint.
#[derive(Debug, PartialEq, Eq)]
pub struct Endpoint {
    /// What requests are routed by.
    pub tag: String,
    /// The name of the upstream, for display only.
    pub provider_name: String,
}

} // verus!
