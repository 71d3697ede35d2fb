//! Verified logic of a regulated real-estate token platform: a KYC whitelist,
//! the offering token that it gates, and the yield distribution registry.
use vstd::prelude::*;

pub mod address;
pub mod balance_sum;
pub mod ttl;
pub mod kyc_whitelist;
pub mod token_model;
pub mod real_estate_token;
pub mod distribution;
pub mod token_laws;
pub mod compliance;

verus! {

} // verus!
