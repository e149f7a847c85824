use vstd::prelude::*;

verus! {

/// Every way an operation of this library can fail.
#[derive(Debug)]
pub enum FactError {
    /// A read or seek on the volume failed; the text describes the cause.
    Io(String),
    /// A malformed on-disk structure.
    ParseError { artifact_name: String, details: String },
    /// Opening the volume was refused by the operating system.
    PermissionDenied,
    /// Encrypted, compressed or sparse data, or an attribute list.
    UnsupportedFormat(String),
    /// Storage of results failed.
    DatabaseError(String),
    /// No entry of the directory matched this path component.
    PathNotFound(String),
    /// The MFT index is not covered by the $MFT runlist.
    IndexOutOfRange(u64),
}

/// Builds a `ParseError` for the named structure.
pub fn parse_error(artifact: &str, details: &str) -> (e: FactError)
    ensures
        e is ParseError,
        e->artifact_name@ == artifact@,
        e->details@ == details@,
{
    FactError::ParseError { artifact_name: artifact.to_string(), details: details.to_string() }
}

/// Builds an `UnsupportedFormat` error with the given reason.
pub fn unsupported(reason: &str) -> (e: FactError)
    ensures
        e is UnsupportedFormat,
        e->UnsupportedFormat_0@ == reason@,
{
    FactError::UnsupportedFormat(reason.to_string())
}

} // verus!
