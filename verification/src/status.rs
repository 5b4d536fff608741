//! The HTTP status codes that the event handling answers with.
use vstd::prelude::*;

verus! {

/// An HTTP status code.
#[derive(PartialEq, Eq, Structural, Debug, Clone, Copy)]
#[allow(non_camel_case_types)]
pub enum StatusCode {
    /// 100
    CONTINUE,
    /// 200
    OK,
    /// 202
    ACCEPTED,
    /// 400
    BAD_REQUEST,
    /// 401
    UNAUTHORIZED,
    /// 429
    TOO_MANY_REQUESTS,
    /// 500
    INTERNAL_SERVER_ERROR,
}

impl StatusCode {
    /// The numeric code.
    pub fn as_u16(&self) -> (r: u16)
        ensures
            r == status_number(*self),
    {
        match self {
            StatusCode::CONTINUE => 100,
            StatusCode::OK => 200,
            StatusCode::ACCEPTED => 202,
            StatusCode::BAD_REQUEST => 400,
            StatusCode::UNAUTHORIZED => 401,
            StatusCode::TOO_MANY_REQUESTS => 429,
            StatusCode::INTERNAL_SERVER_ERROR => 500,
        }
    }
}

/// The numeric code of a status.
pub open spec fn status_number(s: StatusCode) -> u16 {
    match s {
        StatusCode::CONTINUE => 100,
        StatusCode::OK => 200,
        StatusCode::ACCEPTED => 202,
        StatusCode::BAD_REQUEST => 400,
        StatusCode::UNAUTHORIZED => 401,
        StatusCode::TOO_MANY_REQUESTS => 429,
        StatusCode::INTERNAL_SERVER_ERROR => 500,
    }
}

} // verus!
