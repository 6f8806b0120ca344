//! The error type shared by every fallible operation of the library.

use vstd::prelude::*;

verus! {

/// Why a request or a mapping failed.
///
/// Every failure is surfaced to the immediate caller; nothing is retried,
/// logged or swallowed.
#[derive(Clone, Debug)]
pub enum Error {
    /// Assembling the query parameters yielded a string that is not a valid
    /// request URL.
    UrlConstruction,
    /// The network round trip itself failed; the message of the underlying
    /// client is carried verbatim.
    Transport(String),
    /// The response body did not match the expected envelope schema.
    Decode(String),
    /// The credential blob lacks the user-id marker, places it before the
    /// key prefix, or its id segment is not a number.
    CredentialParse,
    /// A decoded record holds a raw code outside the recognized set, or a
    /// timestamp that does not match the fixed format; the offending raw
    /// text is carried along.
    MappingDefect(String),
}

} // verus!
