//! What comes back for a request, and how it is read.
//!
//! An operation reads its reply in one of three ways. Where one well-known
//! object is expected, a body that does not decode is an error. Where a list
//! of mixed entries is expected, such a body counts as an empty list and the
//! failure is handed back beside it. Where only the status counts, the body
//! is not looked at.

use vstd::prelude::*;

verus! {

/// The transport could not carry the request or bring back a response.
#[derive(Clone, PartialEq, Eq, Debug)]
pub struct TransportError {
    pub message: String,
}

/// A response body did not have the shape that the operation expects.
#[derive(Clone, PartialEq, Eq, Debug)]
pub struct DecodeError {
    pub message: String,
}

/// Why an operation failed.
#[derive(Clone, PartialEq, Eq, Debug)]
pub enum ApiError {
    /// The service was not reached. The transport's failure is kept as it came.
    Transport(TransportError),
    /// The service answered with a status outside 200 to 299.
    HttpStatus { code: u16 },
    /// The service answered with a body of another shape than expected.
    Decode(DecodeError),
}

/// A response as the transport received it.
#[derive(Clone, PartialEq, Eq, Debug)]
pub struct Response {
    pub status: u16,
    pub body: String,
}

/// What became of a request whose response body was to be decoded into a `T`.
#[derive(Clone, PartialEq, Eq, Debug)]
pub enum Reply<T> {
    /// No response arrived, or its body could not be read.
    Failed(TransportError),
    /// A body arrived and could not be decoded.
    Malformed(DecodeError),
    /// A body arrived and was decoded.
    Decoded(T),
}

/// A list read leniently: the entries, and the decode failure that was
/// passed over if there was one. With a failure the list is empty.
#[derive(Clone, PartialEq, Eq, Debug)]
pub struct Listing<T> {
    pub items: Vec<T>,
    pub suppressed: Option<DecodeError>,
}

/// Whether a status stands for success: 200 to 299.
pub open spec fn is_success(status: u16) -> bool {
    200 <= status <= 299
}

/// The strict reading of a reply.
pub open spec fn strict_result<T>(reply: Reply<T>) -> Result<T, ApiError> {
    match reply {
        Reply::Failed(e) => Err(ApiError::Transport(e)),
        Reply::Malformed(e) => Err(ApiError::Decode(e)),
        Reply::Decoded(value) => Ok(value),
    }
}

/// Whether `result` is the lenient reading of `reply`.
pub open spec fn is_lenient_result<T>(
    reply: Reply<Vec<T>>,
    result: Result<Listing<T>, ApiError>,
) -> bool {
    match reply {
        Reply::Failed(e) => result == Err::<Listing<T>, ApiError>(ApiError::Transport(e)),
        Reply::Malformed(e) => result matches Ok(listing) && listing.items@.len() == 0
            && listing.suppressed == Some(e),
        Reply::Decoded(items) => result == Ok::<Listing<T>, ApiError>(
            Listing { items, suppressed: None },
        ),
    }
}

/// The reading of a reply by its status alone.
pub open spec fn status_result(reply: Result<Response, TransportError>) -> Result<(), ApiError> {
    match reply {
        Err(e) => Err(ApiError::Transport(e)),
        Ok(response) => if is_success(response.status) {
            Ok(())
        } else {
            Err(ApiError::HttpStatus { code: response.status })
        },
    }
}

/// Reads a reply strictly: the decoded value, or the failure of the transport
/// or of the decoding as an error.
pub fn read_strict<T>(reply: Reply<T>) -> (r: Result<T, ApiError>)
    ensures
        r == strict_result(reply),
{
    match reply {
        Reply::Failed(e) => Err(ApiError::Transport(e)),
        Reply::Malformed(e) => Err(ApiError::Decode(e)),
        Reply::Decoded(value) => Ok(value),
    }
}

/// Reads a reply leniently: a body that did not decode gives an empty list,
/// with the failure beside it. Only a failure of the transport is an error.
pub fn read_lenient<T>(reply: Reply<Vec<T>>) -> (r: Result<Listing<T>, ApiError>)
    ensures
        is_lenient_result(reply, r),
        !(r matches Err(ApiError::Decode(_))),
{
    match reply {
        Reply::Failed(e) => Err(ApiError::Transport(e)),
        Reply::Malformed(e) => Ok(Listing { items: Vec::new(), suppressed: Some(e) }),
        Reply::Decoded(items) => Ok(Listing { items, suppressed: None }),
    }
}

/// Reads a reply by its status: success for 200 to 299 whatever the body
/// holds, the status as an error otherwise.
pub fn read_status(reply: Result<Response, TransportError>) -> (r: Result<(), ApiError>)
    ensures
        r == status_result(reply),
{
    match reply {
        Err(e) => Err(ApiError::Transport(e)),
        Ok(response) => {
            if 200 <= response.status && response.status <= 299 {
                Ok(())
            } else {
                Err(ApiError::HttpStatus { code: response.status })
            }
        },
    }
}

} // verus!
