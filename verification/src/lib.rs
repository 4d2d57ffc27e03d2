//! A function-interception engine: a process-wide registry of hooks, each of
//! which redirects calls to a target function through a generated trampoline
//! to a user handler, with an explicit created / enabled / disabled / removed
//! lifecycle and byte-exact patching of the target's entry bytes.
//!
//! The platform layer (allocating executable trampoline memory and writing
//! into live code pages) is the caller's collaborator; the engine works on an
//! explicit image of each target's entry bytes, so every patch, restore and
//! state transition is verified down to the bytes.

pub mod dispatch;
pub mod errors;
pub mod installer;
pub mod laws;
pub mod patch;
pub mod registry;
pub mod sig;
pub mod state;
pub mod trampoline;
