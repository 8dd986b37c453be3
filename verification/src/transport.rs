//! What comes back from one request to the catalogue service, and how it is
//! judged.

use vstd::prelude::*;

verus! {

/// Why a request to the catalogue gave no usable answer.
#[derive(Clone, Copy, Debug, PartialEq, Eq, Structural)]
pub enum CatalogError {
    /// A search matched nothing.
    NotFound,
    /// No response arrived.
    Transport,
    /// The response carried a status other than success.
    HttpStatus(u16),
    /// The body did not have the expected shape, or held a malformed
    /// identifier.
    Decode,
}

/// The outcome of one request, as the caller observed it.
#[derive(Debug)]
pub enum HttpReply<T> {
    /// No response arrived.
    Unreachable,
    /// A response arrived. `body` is `None` where it could not be decoded;
    /// it is looked at only where the status is a success.
    Answered { status: u16, body: Option<T> },
}

/// Whether a status code is in the success class.
pub open spec fn is_success(status: u16) -> bool {
    200 <= status < 300
}

/// The judgement of a reply: its decoded body, or the first thing that went
/// wrong on the way to it.
pub open spec fn reply_result<T>(reply: HttpReply<T>) -> Result<T, CatalogError> {
    match reply {
        HttpReply::Unreachable => Err(CatalogError::Transport),
        HttpReply::Answered { status, body } => if !is_success(status) {
            Err(CatalogError::HttpStatus(status))
        } else {
            match body {
                Some(value) => Ok(value),
                None => Err(CatalogError::Decode),
            }
        },
    }
}

/// Whether a status code is in the success class.
pub fn status_is_success(status: u16) -> (r: bool)
    ensures
        r == is_success(status),
{
    200 <= status && status < 300
}

impl<T> HttpReply<T> {
    /// Judges the reply.
    pub fn into_result(self) -> (r: Result<T, CatalogError>)
        ensures
            r == reply_result(self),
    {
        match self {
            HttpReply::Unreachable => Err(CatalogError::Transport),
            HttpReply::Answered { status, body } => if !status_is_success(status) {
                Err(CatalogError::HttpStatus(status))
            } else {
                match body {
                    Some(value) => Ok(value),
                    None => Err(CatalogError::Decode),
                }
            },
        }
    }
}

} // verus!
