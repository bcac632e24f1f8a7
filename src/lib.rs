//! Typed archive of recorded HTTP exchanges: header value sets, recorded
//! requests and responses, the two-phase decoding of archive entries, and the
//! ordering of archived files in a store directory.
use vstd::prelude::*;

pub mod multi_value;
pub mod request;
pub mod archive;
pub mod exchange;
pub mod store;
pub mod client;

verus! {

} // verus!
