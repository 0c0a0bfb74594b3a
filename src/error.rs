//! The errors that the library reports.
use vstd::prelude::*;

verus! {

/// What can go wrong while coordinating a signal.
#[derive(Clone, Debug, PartialEq, Eq)]
pub enum Error {
    /// The persistence backend failed.
    DynamoDb(String),
    /// An identifier or a value could not be encoded, or an encoded one decoded.
    Encoding(String),
    /// A stored record could not be decoded.
    Decoding(String),
    /// Reserved: a stricter caller may report a timed-out record as an error.
    Timeout,
    /// Reserved: a stricter caller may report an expired record as an error.
    Expired,
    /// An unexpected clock reading or broken invariant.
    Internal(String),
}

} // verus!
