//! The crate's error taxonomy: configuration errors are fatal at boot, I/O
//! and transport errors are surfaced per call, access violations are
//! per-request, and lock poisoning ends the affected call path.

use vstd::prelude::*;

verus! {

/// One variant per failure class the library reports.
#[derive(Clone, Copy, PartialEq, Eq, Structural, Debug)]
pub enum SyncError {
    /// A required configuration entry is missing or unusable.
    ConfigError,
    /// Reading or writing a file failed.
    IoError,
    /// An upload to a slave failed (transport error or non-success status).
    TransportError,
    /// An upload reached the slave but was rejected with this non-success
    /// HTTP status.
    TransportStatus(u16),
    /// The peer address is not on the allow-list.
    AccessDenied,
    /// A lock guarding shared state was poisoned.
    LockError,
    /// A date format string is not one the library supports.
    FormatError,
    /// A date text does not parse as `YYYYMMDD`.
    ParseError,
    /// A civil date lies outside the supported year range.
    InvalidDate,
}

impl SyncError {
    /// A short description, for logs and responses.
    pub fn message(&self) -> &'static str {
        match self {
            SyncError::ConfigError => "missing or invalid configuration",
            SyncError::IoError => "file read or write failed",
            SyncError::TransportError => "upload to slave failed",
            SyncError::TransportStatus(_) => "upload rejected by slave with a non-success status",
            SyncError::AccessDenied => "peer address not allowed",
            SyncError::LockError => "shared state lock poisoned",
            SyncError::FormatError => "unsupported date format",
            SyncError::ParseError => "date text does not parse",
            SyncError::InvalidDate => "date out of supported range",
        }
    }
}

} // verus!
