use vstd::prelude::*;

verus! {

/// Terminal error kinds for one orchestration run.
///
/// `MountError` means at least one mount attempt failed for a reason other
/// than the target being already mounted. `ParseError` means the manifest
/// file could not be read at all. `ArgError` means the process was invoked
/// with malformed arguments and nothing was attempted.
#[derive(Debug, Clone, Copy, PartialEq, Eq, Structural)]
pub enum AdsysMountError {
    MountError,
    ParseError,
    ArgError,
}

impl AdsysMountError {
    /// The process exit code that reports this error to the caller:
    /// non-zero, and distinct for each kind.
    pub fn exit_code(&self) -> (code: i32)
        ensures
            self is MountError ==> code == 1,
            self is ParseError ==> code == 2,
            self is ArgError ==> code == 3,
            code != 0,
    {
        match self {
            AdsysMountError::MountError => 1,
            AdsysMountError::ParseError => 2,
            AdsysMountError::ArgError => 3,
        }
    }
}

} // verus!
