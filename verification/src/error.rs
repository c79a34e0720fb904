use vstd::prelude::*;

verus! {

/// Why a boot attempt ended without a usable root filesystem.
///
/// None of these is recoverable: the sequence has no retry edge, so each one
/// ends the process with a non-zero status.
#[derive(Debug, Clone, Copy, PartialEq, Eq, Structural)]
pub enum BootError {
    /// The transport mount failed, or the key file could not be read.
    KeyUnavailable,
    /// The key text does not have the expected number of groups, or one of
    /// its groups is not a pair of hexadecimal digits.
    MalformedKey,
    /// A path of the root-filesystem layout holds a NUL byte.
    InvalidPath,
    /// An environment assignment holds a NUL byte.
    InvalidEnv,
    /// The privileged mount returned a negative status; the field is the
    /// platform's last error number at that moment.
    OsError(i32),
    /// The driver handed back a result that does not answer the action it
    /// was given.
    UnexpectedEvent,
}

/// Exit status of a boot that reached the privileged mount and saw it succeed.
pub const SUCCESS_STATUS: i32 = 0;

/// Exit status of every failed boot.
pub const FAILURE_STATUS: i32 = 1;

} // verus!
