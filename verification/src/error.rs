//! The error taxonomy of the daemon and its fatal/transient policy.
//!
//! Every failure the control loop can see is one of the `RpiError`
//! variants. The policy splits them in two: a missing file, a generic
//! I/O failure or unparseable content will not heal by waiting and is
//! fatal; a permission or read-content hiccup is treated as a momentary
//! driver quirk and retried.

use vstd::prelude::*;

verus! {

/// Why the device file's content failed to parse as a brightness value.
#[derive(Clone, Copy, Debug, PartialEq, Eq, Structural)]
pub enum ParseFault {
    /// The content was empty after newline trimming.
    Empty,
    /// A byte of the content is not an ASCII decimal digit.
    InvalidDigit,
    /// The digits denote a value above 255.
    Overflow,
}

/// A failure of the device interface, as the control loop classifies it.
#[derive(Clone, Copy, Debug, PartialEq, Eq, Structural)]
pub enum RpiError {
    /// A generic open/read/write failure of the device file.
    FileError,
    /// The device file exists but may not be opened with the needed rights.
    MissingPermissions,
    /// The device file is not there.
    FileMissing,
    /// The open succeeded but the content could not be fully read.
    ReadError,
    /// The content is not a valid decimal value in 0..=255.
    ParseError(ParseFault),
}

/// A low-level filesystem failure, reduced to the distinctions the
/// policy cares about. The binary converts the platform's error kind
/// into this before handing it to the library.
#[derive(Clone, Copy, Debug, PartialEq, Eq, Structural)]
pub enum IoFailure {
    /// The path does not exist.
    NotFound,
    /// Access to the path was denied.
    PermissionDenied,
    /// Any other failure.
    Other,
}

/// How a low-level filesystem failure maps into the error taxonomy.
pub open spec fn spec_map_error(kind: IoFailure) -> RpiError {
    match kind {
        IoFailure::NotFound => RpiError::FileMissing,
        IoFailure::PermissionDenied => RpiError::MissingPermissions,
        IoFailure::Other => RpiError::FileError,
    }
}

/// Translates a low-level filesystem failure into the error taxonomy:
/// a missing path becomes `FileMissing`, denied access becomes
/// `MissingPermissions`, and anything else becomes `FileError`.
pub fn map_error(kind: IoFailure) -> (e: RpiError)
    ensures
        e == spec_map_error(kind),
{
    match kind {
        IoFailure::NotFound => RpiError::FileMissing,
        IoFailure::PermissionDenied => RpiError::MissingPermissions,
        IoFailure::Other => RpiError::FileError,
    }
}

/// Which errors end the daemon: `FileMissing`, `FileError` and
/// `ParseError` are fatal; `MissingPermissions` and `ReadError` are
/// transient and only cause a backoff and retry.
pub open spec fn spec_is_fatal(e: RpiError) -> bool {
    match e {
        RpiError::FileError => true,
        RpiError::FileMissing => true,
        RpiError::ParseError(_) => true,
        RpiError::MissingPermissions => false,
        RpiError::ReadError => false,
    }
}

/// Decides whether an error ends the daemon or is retried after a
/// backoff, exactly as `spec_is_fatal` states.
pub fn is_fatal(e: &RpiError) -> (r: bool)
    ensures
        r == spec_is_fatal(*e),
{
    match e {
        RpiError::FileError => true,
        RpiError::FileMissing => true,
        RpiError::ParseError(_) => true,
        RpiError::MissingPermissions => false,
        RpiError::ReadError => false,
    }
}

} // verus!
