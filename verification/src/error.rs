//! The failures of the core, and the faults a caller reports to it.

use vstd::prelude::*;

verus! {

/// What went wrong with a stat or a read, as the caller that performed it
/// observed it.
#[derive(Clone, Copy, Debug, PartialEq, Eq, Structural)]
pub enum ReadFault {
    /// The path names nothing.
    NotFound,
    /// The path exists and may not be read.
    PermissionDenied,
    /// Anything else: a failed read or seek, a device error.
    Other,
}

/// The typed failures that the core reports.
#[derive(Clone, Copy, Debug, PartialEq, Eq, Structural)]
pub enum FileError {
    /// The path does not exist.
    NotFound,
    /// The file may not be read.
    PermissionDenied,
    /// A read failed, or delivered a number of bytes that the length taken
    /// when the file was opened rules out.
    IoFailure,
    /// The operation names a path that is not open.
    NotOpen,
}

impl ReadFault {
    /// The failure that opening a file reports for this fault.
    pub open spec fn open_error(self) -> FileError {
        match self {
            ReadFault::NotFound => FileError::NotFound,
            ReadFault::PermissionDenied => FileError::PermissionDenied,
            ReadFault::Other => FileError::IoFailure,
        }
    }

    /// Computes [`ReadFault::open_error`].
    pub fn to_open_error(self) -> (e: FileError)
        ensures
            e == self.open_error(),
    {
        match self {
            ReadFault::NotFound => FileError::NotFound,
            ReadFault::PermissionDenied => FileError::PermissionDenied,
            ReadFault::Other => FileError::IoFailure,
        }
    }
}

} // verus!
