//! The failures a hook operation can report. Every operation of the engine
//! returns one of these as a typed error; none is swallowed or retried.

use vstd::prelude::*;

verus! {

/// Why a hook request or a lifecycle operation failed.
#[derive(Clone, Copy, Debug, PartialEq, Eq, Structural)]
pub enum HookError {
    /// The requested signature is variadic or not a function type at all;
    /// detected when the descriptor is built, never at patch time.
    UnsupportedSignature,
    /// A second create() against a target address already in the registry.
    AlreadyHooked,
    /// enable() or disable() before create() succeeded for the target.
    NotInitialized,
    /// The target's prologue cannot be intercepted safely: the region is
    /// unknown, not executable, or too short for the redirect sequence.
    UnsupportedInstruction,
    /// The platform refused to make the target's page writable + executable.
    MemoryProtectionDenied,
    /// A verification read found the target's bytes changed by another agent
    /// between capture and patch (or between patch and restore).
    ConcurrentModification,
}

impl HookError {
    /// A short human-readable description of the failure.
    pub fn describe(&self) -> &'static str {
        match self {
            HookError::UnsupportedSignature => "unsupported signature",
            HookError::AlreadyHooked => "target is already hooked",
            HookError::NotInitialized => "hook was not created",
            HookError::UnsupportedInstruction => "prologue cannot be intercepted",
            HookError::MemoryProtectionDenied => "memory protection change denied",
            HookError::ConcurrentModification => "target bytes changed concurrently",
        }
    }
}

} // verus!
