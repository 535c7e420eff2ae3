//! The error model: numeric driver status codes, the structured [`Error`]
//! value built from a failing code, and the coarse [`ErrorKind`] taxonomy.

use vstd::prelude::*;

verus! {

/// Status code the driver returns when a task name is already registered.
pub const DAQ_ERROR_DUPLICATE_TASK: i32 = -200089;

/// Status code the driver returns for a handle that names no live task.
pub const DAQ_ERROR_INVALID_TASK: i32 = -200088;

/// Status code the driver returns for a channel already attached to the task.
pub const DAQ_ERROR_CHAN_ALREADY_IN_TASK: i32 = -200489;

/// Status code the driver returns for a physical-channel name it rejects.
pub const DAQ_ERROR_PHYSICAL_CHAN_INVALID: i32 = -200220;

/// Status code the driver returns when a string does not fit the buffer.
pub const DAQ_ERROR_BUFFER_TOO_SMALL: i32 = -200228;

/// Warning code (positive) signalling a string was truncated to the buffer.
pub const DAQ_WARNING_STRING_TRUNCATED: i32 = 200026;

/// Status code the driver returns when it is out of resources.
pub const DAQ_ERROR_MEMORY: i32 = -50352;

/// Library-defined code: a name holds an embedded null byte and cannot be
/// handed to the driver as a C string.
pub const ERROR_INVALID_NAME: i32 = -300001;

/// Library-defined code: a channel index at or beyond the channel-list
/// length. By contract this marks a caller bug, not a driver condition.
pub const ERROR_INDEX_OUT_OF_RANGE: i32 = -300002;

/// Library-defined code: the buffered-string protocol hit its retry cap
/// without converging (a driver whose reported sizes keep oscillating).
pub const ERROR_PROTOCOL_NO_CONVERGENCE: i32 = -300003;

/// A strictly negative status code is a hard error; zero is success and
/// positive codes are warnings, folded into success at this layer.
pub open spec fn is_failure_code(code: i32) -> bool {
    code < 0
}

/// The coarse classification of an error code.
#[derive(Clone, Copy, Debug, PartialEq, Eq, Structural)]
pub enum ErrorKind {
    /// A task or channel name collided with one already registered.
    DuplicateResource,
    /// A malformed argument, such as a name with an embedded null byte.
    InvalidArgument,
    /// A channel index at or beyond the channel-list length: a caller bug.
    IndexOutOfRange,
    /// Any other negative driver code, opaque to this layer.
    DriverError,
}

/// Which [`ErrorKind`] a numeric code falls under.
pub open spec fn kind_of_code(code: i32) -> ErrorKind {
    if code == DAQ_ERROR_DUPLICATE_TASK || code == DAQ_ERROR_CHAN_ALREADY_IN_TASK {
        ErrorKind::DuplicateResource
    } else if code == ERROR_INVALID_NAME {
        ErrorKind::InvalidArgument
    } else if code == ERROR_INDEX_OUT_OF_RANGE {
        ErrorKind::IndexOutOfRange
    } else {
        ErrorKind::DriverError
    }
}

/// A structured error: the raw numeric driver code, plus diagnostic text
/// fields. The driver's message-formatting entry points are not consulted
/// yet, so both text fields are still empty on every error this layer builds.
#[derive(Clone, Debug)]
pub struct Error {
    /// The native status code, surfaced unchanged.
    pub code: i32,
    /// Human-readable description; not yet populated.
    pub description: String,
    /// Extended diagnostic text; not yet populated.
    pub extended_info: String,
}

impl Error {
    /// Builds the error value for a failing status code.
    pub fn from_code(code: i32) -> (e: Error)
        ensures
            e.code == code,
            e.description@.len() == 0,
            e.extended_info@.len() == 0,
    {
        Error { code, description: String::new(), extended_info: String::new() }
    }

    /// The coarse classification of this error.
    pub fn kind(&self) -> (k: ErrorKind)
        ensures
            k == kind_of_code(self.code),
    {
        if self.code == DAQ_ERROR_DUPLICATE_TASK || self.code == DAQ_ERROR_CHAN_ALREADY_IN_TASK {
            ErrorKind::DuplicateResource
        } else if self.code == ERROR_INVALID_NAME {
            ErrorKind::InvalidArgument
        } else if self.code == ERROR_INDEX_OUT_OF_RANGE {
            ErrorKind::IndexOutOfRange
        } else {
            ErrorKind::DriverError
        }
    }
}

} // verus!
