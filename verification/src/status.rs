//! Status codes of a response.

use vstd::prelude::*;

verus! {

/// Whether `code` is a number that a status line can carry.
pub open spec fn is_status_number(code: u16) -> bool {
    100 <= code && code < 1000
}

/// Asks `http::StatusCode::from_u16` whether it accepts `code`, and hands back
/// the number of the status code it built. The `http` crate accepts exactly
/// the numbers from 100 to 999 and keeps the number unchanged.
#[verifier::external_body]
fn http_status_number(code: u16) -> (r: Option<u16>)
    ensures
        r == (if is_status_number(code) { Some(code) } else { None::<u16> }),
{
    match http::StatusCode::from_u16(code) {
        Ok(status) => Some(status.as_u16()),
        Err(_) => None,
    }
}

/// The number of `http::StatusCode::OK`, which is 200. It is also the status
/// that the `http` crate gives a response by default.
#[verifier::external_body]
fn http_ok_number() -> (r: u16)
    ensures
        r == 200,
{
    http::StatusCode::OK.as_u16()
}

/// The number of `http::StatusCode::NOT_FOUND`, which is 404.
#[verifier::external_body]
fn http_not_found_number() -> (r: u16)
    ensures
        r == 404,
{
    http::StatusCode::NOT_FOUND.as_u16()
}

/// The number of `http::StatusCode::INTERNAL_SERVER_ERROR`, which is 500.
#[verifier::external_body]
fn http_internal_server_error_number() -> (r: u16)
    ensures
        r == 500,
{
    http::StatusCode::INTERNAL_SERVER_ERROR.as_u16()
}

/// An HTTP status code: a number from 100 to 999.
#[derive(Clone, Copy, Debug)]
pub struct StatusCode {
    code: u16,
}

impl View for StatusCode {
    type V = u16;

    closed spec fn view(&self) -> u16 {
        self.code
    }
}

impl StatusCode {
    /// Every status code holds a number that a status line can carry.
    #[verifier::type_invariant]
    pub open spec fn well_formed(self) -> bool {
        is_status_number(self@)
    }

    /// The status code with the number `code`, if `code` lies in 100..=999.
    pub fn from_u16(code: u16) -> (r: Option<StatusCode>)
        ensures
            r is Some <==> is_status_number(code),
            r matches Some(s) ==> s@ == code && s.well_formed(),
    {
        match http_status_number(code) {
            Some(n) => Some(StatusCode { code: n }),
            None => None,
        }
    }

    /// 200 OK.
    pub fn ok() -> (r: StatusCode)
        ensures
            r@ == 200,
            r.well_formed(),
    {
        StatusCode { code: http_ok_number() }
    }

    /// 404 Not Found.
    pub fn not_found() -> (r: StatusCode)
        ensures
            r@ == 404,
            r.well_formed(),
    {
        StatusCode { code: http_not_found_number() }
    }

    /// 500 Internal Server Error.
    pub fn internal_server_error() -> (r: StatusCode)
        ensures
            r@ == 500,
            r.well_formed(),
    {
        StatusCode { code: http_internal_server_error_number() }
    }

    /// The number of this status code.
    pub fn as_u16(&self) -> (r: u16)
        ensures
            r == self@,
            is_status_number(r),
    {
        proof {
            use_type_invariant(self);
        }
        self.code
    }
}

} // verus!
