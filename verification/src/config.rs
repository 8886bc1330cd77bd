//! The configuration values the relay-info document is assembled from.

use vstd::prelude::*;

verus! {

/// Operator-facing identity of the relay.
pub struct Info {
    pub relay_url: Option<String>,
    pub name: Option<String>,
    pub description: Option<String>,
    pub pubkey: Option<String>,
    pub contact: Option<String>,
}

/// Payment settings: whether payment is required, and the fees charged.
pub struct PayToRelay {
    pub enabled: bool,
    pub admission_cost: u64,
    pub cost_per_event: u64,
}

} // verus!
