//! The error taxonomy of the installer.

use vstd::prelude::*;

verus! {

/// Every failure the installer can report.
///
/// The first three are validation errors: bad command-line input, rejected
/// before any side effect happens.  The rest classify failures of the
/// filesystem and service-control steps.
#[derive(Clone, Copy, Debug, PartialEq, Eq, Structural)]
pub enum XunleiError {
    /// The port argument is not a decimal number.
    PortNotANumber,
    /// The port argument is a number outside 1024..=65535.
    PortOutOfRange,
    /// The host argument is not an IP address literal.
    HostNotAnIp,
    /// A path that must be a directory exists as something else.
    NotADirectory,
    /// A create, write or remove failed.
    IoError,
    /// The process lacks the privilege for an ownership or symlink change.
    PermissionDenied,
    /// An asset filename was looked up that the store does not hold.
    NotFound,
    /// A best-effort external command failed; never aborts a sequence.
    ExternalTool,
}

impl XunleiError {
    /// A human-readable message for the error, used by the runner when it
    /// reports a failure.
    pub fn message(&self) -> (r: &'static str)
        ensures
            self is PortOutOfRange ==> r@ == "Port not in range 1024-65535"@,
            self is PortNotANumber ==> r@ == "isn't a port number"@,
            self is HostNotAnIp ==> r@ == "isn't a ip address"@,
    {
        match self {
            XunleiError::PortNotANumber => "isn't a port number",
            XunleiError::PortOutOfRange => "Port not in range 1024-65535",
            XunleiError::HostNotAnIp => "isn't a ip address",
            XunleiError::NotADirectory => "path must be a directory",
            XunleiError::IoError => "filesystem operation failed",
            XunleiError::PermissionDenied => "permission denied",
            XunleiError::NotFound => "asset not found",
            XunleiError::ExternalTool => "external command failed",
        }
    }
}

} // verus!
