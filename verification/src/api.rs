//! What the HTTP surface needs of the library: where to listen, and which status
//! answers which outcome of a lookup.

use crate::decimal::{render_u64, rendered};
use crate::lookup::{
    result_view, LookupErrorView, LookupResultView, SeqRepoLookupError, SequenceMetadata,
};
use vstd::prelude::*;
use vstd::string::*;

verus! {

/// The port to listen on where none is asked for.
pub const DEFAULT_PORT: u16 = 3000;

/// The address to listen on: every interface, and the given port or the default.
pub open spec fn listen_address(port: Option<u16>) -> Seq<char> {
    "0.0.0.0:"@ + rendered(
        match port {
            Some(p) => p as nat,
            None => DEFAULT_PORT as nat,
        },
    )
}

/// The address on which the service listens.
pub fn bind_address(port: Option<u16>) -> (address: String)
    ensures
        address@ == listen_address(port),
{
    let number = match port {
        Some(p) => p,
        None => DEFAULT_PORT,
    };
    let mut address = "0.0.0.0:".to_string();
    address.append(render_u64(number as u64).as_str());
    address
}

/// The HTTP status that answers an outcome of a lookup: found, unknown, a
/// malformed request, an unavailable backend, or a fault in what is stored.
pub open spec fn status_of(outcome: LookupResultView) -> u16 {
    match outcome {
        Ok(Some(_)) => 200,
        Ok(None) => 404,
        Err(LookupErrorView::InvalidInput(_)) => 422,
        Err(LookupErrorView::DynamoDbError(_)) => 503,
        Err(_) => 500,
    }
}

/// The HTTP status with which to answer a lookup.
pub fn lookup_status(outcome: &Result<Option<SequenceMetadata>, SeqRepoLookupError>) -> (status: u16)
    ensures
        status == status_of(result_view(*outcome)),
{
    match outcome {
        Ok(Some(_)) => 200,
        Ok(None) => 404,
        Err(SeqRepoLookupError::InvalidInput(_)) => 422,
        Err(SeqRepoLookupError::DynamoDbError(_)) => 503,
        Err(_) => 500,
    }
}

} // verus!
