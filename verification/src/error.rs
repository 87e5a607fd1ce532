use vstd::prelude::*;

verus! {

/// Errors surfaced by the core outside of the session protocol: admission
/// control failures and config persistence failures.
#[derive(Clone, Debug)]
pub enum Error {
    /// Admission: too many callers are already waiting for a connection permit.
    TooManyRequests,
    /// Admission: a permit could not be obtained within the configured timeout.
    DbCreateTimeout,
    /// Persistence: an I/O failure, reported by the surrounding runtime as text.
    IOError(String),
    /// Persistence: the stored config document could not be decoded.
    InvalidConfig,
    /// Operations of this kind are blocked by the database config; carries the
    /// configured reason, if any.
    Blocked(Option<String>),
    /// A line of the trusted extensions list does not hold a digest and a
    /// file name.
    InvalidExtensionLine,
    /// A line of the trusted extensions list holds more than two fields,
    /// which would mean a file name with whitespace.
    ExtensionNameWithWhitespace,
}

impl Error {
    /// A short stable label for the error kind, for logs and test output.
    pub fn label(&self) -> (r: &'static str)
        ensures
            r@ == match self {
                Error::TooManyRequests => "TOO_MANY_REQUESTS"@,
                Error::DbCreateTimeout => "DB_CREATE_TIMEOUT"@,
                Error::IOError(_) => "IO_ERROR"@,
                Error::InvalidConfig => "INVALID_CONFIG"@,
                Error::Blocked(_) => "BLOCKED"@,
                Error::InvalidExtensionLine => "INVALID_EXTENSION_LINE"@,
                Error::ExtensionNameWithWhitespace => "EXTENSION_NAME_WITH_WHITESPACE"@,
            },
    {
        match self {
            Error::TooManyRequests => "TOO_MANY_REQUESTS",
            Error::DbCreateTimeout => "DB_CREATE_TIMEOUT",
            Error::IOError(_) => "IO_ERROR",
            Error::InvalidConfig => "INVALID_CONFIG",
            Error::Blocked(_) => "BLOCKED",
            Error::InvalidExtensionLine => "INVALID_EXTENSION_LINE",
            Error::ExtensionNameWithWhitespace => "EXTENSION_NAME_WITH_WHITESPACE",
        }
    }
}

} // verus!
