use vstd::prelude::*;

use crate::api::Digest;

verus! {

/// The identifier under which the node routes this service's transactions.
pub const SERVICE_ID: u16 = 1;

/// The timestamping service as the node sees it.
pub struct TimestampingService;

impl TimestampingService {
    pub fn service_name(&self) -> (r: &'static str)
        ensures
            r@ == "timestamping"@,
    {
        "timestamping"
    }

    pub fn service_id(&self) -> (r: u16)
        ensures
            r == SERVICE_ID,
    {
        SERVICE_ID
    }

    /// The hashes this service contributes to the state hash: none.
    pub fn state_hash(&self) -> (r: Vec<Digest>)
        ensures
            r@.len() == 0,
    {
        Vec::new()
    }
}

} // verus!
