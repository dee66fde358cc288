//! The failure taxonomy of the binding layer.

use vstd::prelude::*;

verus! {

/// The code/message pair projected from a handle's last-error fields.
///
/// The code is advisory: the native contract only promises that a non-zero
/// value denotes failure and that the pair, read immediately after a failing
/// call, reflects that call's failure.
#[derive(Clone, Debug, PartialEq, Eq)]
pub struct ErrorRecord {
    pub num: i32,
    pub message: String,
}

/// Everything a fallible operation of this layer can report.
#[derive(Clone, Debug, PartialEq, Eq)]
pub enum Error {
    /// The native factory returned an invalid handle.
    Construction,
    /// Text could not cross the boundary: an embedded null byte on the way
    /// out, or bytes that are not valid UTF-8 on the way back.
    Encoding,
    /// The native object reported a failure; carries its last-error record.
    Foreign(ErrorRecord),
    /// The native object has no value under the requested name.
    NotFound,
}

impl Error {
    /// Diagnostic text for the error, in place of a `Display` implementation.
    pub fn describe(&self) -> (r: String)
        ensures
            self matches Error::Foreign(rec) ==> r@ == rec.message@,
    {
        match self {
            Error::Construction => "the native factory returned an invalid handle".to_owned(),
            Error::Encoding => "text is not representable at the foreign boundary".to_owned(),
            Error::Foreign(rec) => rec.message.clone(),
            Error::NotFound => "no value exists under the requested name".to_owned(),
        }
    }
}

} // verus!
