//! What can go wrong while a journal is read.

use vstd::prelude::*;

verus! {

/// `mft::err::Error`: why the table's parser gave up. It is carried to the
/// caller as it is.
#[verifier::external_type_specification]
#[verifier::external_body]
pub struct ExMftError(mft::err::Error);

/// A failure of the journal reader.
#[derive(Debug)]
pub enum UsnError {
    /// The master file table could not be parsed.
    Mft(mft::err::Error),
    /// The bytes end before the record does.
    Truncated,
    /// The record's length fields contradict each other.
    BadLength,
    /// The record is not of format version 2.0.
    BadVersion { major: u16, minor: u16 },
}

} // verus!
