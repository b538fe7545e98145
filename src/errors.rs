use vstd::prelude::*;

verus! {

/// The broad category a failing request falls into.
#[derive(Clone, Copy, Debug, PartialEq, Eq, Structural)]
pub enum ErrorContext {
    UnauthorizedAccess,
    InternalServerError,
    BadRequest,
    NotFound,
}

/// Every way an operation of this library can fail.
#[derive(Clone, Copy, Debug, PartialEq, Eq, Structural)]
pub enum CustomAppError {
    /// No session, or an unknown or expired one.
    Unauthenticated,
    /// The row does not exist or the caller does not own it; the two are
    /// deliberately not told apart.
    UnauthorizedOrNotFound,
    /// A malformed payload: empty title or content, no tags, too many tags.
    InvalidInput,
    /// A tag id that the tag table does not hold.
    InvalidTag,
    /// An activation code that is wrong, used or expired.
    InvalidOrExpired,
    /// A unique constraint would be broken (a second account for an email).
    Conflict,
    /// The store or the hasher failed.
    InternalError,
}

pub open spec fn spec_status_code(e: CustomAppError) -> u16 {
    match e {
        CustomAppError::Unauthenticated => 401,
        CustomAppError::UnauthorizedOrNotFound => 404,
        CustomAppError::InvalidInput => 400,
        CustomAppError::InvalidTag => 404,
        CustomAppError::InvalidOrExpired => 400,
        CustomAppError::Conflict => 400,
        CustomAppError::InternalError => 500,
    }
}

pub open spec fn spec_message(e: CustomAppError) -> Seq<char> {
    match e {
        CustomAppError::Unauthenticated =>
            "You are not authorized since you don't seem to have been authenticated"@,
        CustomAppError::UnauthorizedOrNotFound =>
            "Resource not found or you are not allowed to perform this operation"@,
        CustomAppError::InvalidInput => "The request is malformed or incomplete"@,
        CustomAppError::InvalidTag => "One or more tags do not exist"@,
        CustomAppError::InvalidOrExpired => "Activation code not found or expired"@,
        CustomAppError::Conflict => "An account with this email already exists."@,
        CustomAppError::InternalError =>
            "We're experiencing some technical difficulties. Please try again later."@,
    }
}

impl CustomAppError {
    /// The message that a caller sees; like the status, it depends on the
    /// category alone and never carries internal details.
    pub fn message(&self) -> (r: String)
        ensures
            r@ == spec_message(*self),
    {
        match self {
            CustomAppError::Unauthenticated => String::from_str(
                "You are not authorized since you don't seem to have been authenticated",
            ),
            CustomAppError::UnauthorizedOrNotFound => String::from_str(
                "Resource not found or you are not allowed to perform this operation",
            ),
            CustomAppError::InvalidInput => String::from_str(
                "The request is malformed or incomplete",
            ),
            CustomAppError::InvalidTag => String::from_str("One or more tags do not exist"),
            CustomAppError::InvalidOrExpired => String::from_str(
                "Activation code not found or expired",
            ),
            CustomAppError::Conflict => String::from_str(
                "An account with this email already exists.",
            ),
            CustomAppError::InternalError => String::from_str(
                "We're experiencing some technical difficulties. Please try again later.",
            ),
        }
    }

    /// The HTTP status that a caller sees; it depends on the category alone.
    pub fn status_code(&self) -> (r: u16)
        ensures
            r == spec_status_code(*self),
    {
        match self {
            CustomAppError::Unauthenticated => 401,
            CustomAppError::UnauthorizedOrNotFound => 404,
            CustomAppError::InvalidInput => 400,
            CustomAppError::InvalidTag => 404,
            CustomAppError::InvalidOrExpired => 400,
            CustomAppError::Conflict => 400,
            CustomAppError::InternalError => 500,
        }
    }

    /// The error that stands for a failure of the given category.
    pub fn from_context(context: ErrorContext) -> (r: CustomAppError)
        ensures
            r == match context {
                ErrorContext::UnauthorizedAccess => CustomAppError::Unauthenticated,
                ErrorContext::InternalServerError => CustomAppError::InternalError,
                ErrorContext::BadRequest => CustomAppError::InvalidInput,
                ErrorContext::NotFound => CustomAppError::UnauthorizedOrNotFound,
            },
    {
        match context {
            ErrorContext::UnauthorizedAccess => CustomAppError::Unauthenticated,
            ErrorContext::InternalServerError => CustomAppError::InternalError,
            ErrorContext::BadRequest => CustomAppError::InvalidInput,
            ErrorContext::NotFound => CustomAppError::UnauthorizedOrNotFound,
        }
    }
}

} // verus!
