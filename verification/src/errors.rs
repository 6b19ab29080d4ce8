//! Error taxonomy of the session pipeline.

use vstd::prelude::*;

verus! {

/// Failures of the session manager and resolver pipeline.
///
/// `Network`: transport failure; `TokenNotFound`: no anti-forgery token in the
/// session page; `HttpStatus`: a non-success response, with its code;
/// `Decode`: a body that is not valid JSON.
#[derive(Clone, Copy, Debug, PartialEq, Eq, Structural)]
pub enum SessionError {
    Network,
    TokenNotFound,
    HttpStatus(u16),
    Decode,
}

} // verus!
