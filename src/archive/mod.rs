//! Archive entries: recorded exchanges read back with payloads whose shape
//! depends on the request that produced them.
use crate::exchange::Response;
use crate::request::params::Params;
use vstd::prelude::*;

pub mod entry;

verus! {

/// A payload type of one scraping target that can be read back from an
/// archive, given the parameters already recovered from the entry's request.
pub trait Archiveable: Sized {
    /// The parameters that the target's requests carry.
    type RequestParams: Params;

    /// The typed response for a recorded response whose payload is the JSON
    /// text `response.data`, read in the shape that `request_params` call
    /// for; or a message saying why it could not be read.
    fn deserialize_response(request_params: &Self::RequestParams, response: Response<String>) -> Result<
        Response<Self>,
        String,
    >;
}

} // verus!
