use crate::errors::{spec_message, spec_status_code, CustomAppError};
use vstd::prelude::*;

verus! {

/// The body of a successful response.
#[derive(Debug)]
pub struct SuccessResponse {
    pub message: String,
    pub status_code: u16,
    pub user_id: Option<u128>,
}

impl SuccessResponse {
    /// `"Success"` with status 200 and no user id.
    pub fn default() -> (r: SuccessResponse)
        ensures
            r.message@ == "Success"@,
            r.status_code == 200,
            r.user_id is None,
    {
        SuccessResponse { message: String::from_str("Success"), status_code: 200, user_id: None }
    }
}

/// The body of a failed response.
#[derive(Debug)]
pub struct ErrorResponse {
    pub message: String,
    pub status_code: u16,
}

impl ErrorResponse {
    /// The payload that stands for an error.
    pub fn from_error(e: CustomAppError) -> (r: ErrorResponse)
        ensures
            r.message@ == spec_message(e),
            r.status_code == spec_status_code(e),
    {
        ErrorResponse { message: e.message(), status_code: e.status_code() }
    }
}

} // verus!
