//! Generic HTTP status code endpoint.

use vstd::prelude::*;

use crate::error::Error;
use crate::http::{status_is_valid, valid_status};

verus! {

/// Returns the given HTTP status code, or an error if `code` isn't a
/// valid HTTP status code (100-999).
pub fn status(code: u16) -> (r: Result<u16, Error>)
    ensures
        valid_status(code) ==> r == Ok::<u16, Error>(code),
        !valid_status(code) ==> r matches Err(Error::InvalidStatusCode),
{
    if status_is_valid(code) {
        Ok(code)
    } else {
        Err(Error::InvalidStatusCode)
    }
}

} // verus!
