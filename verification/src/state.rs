//! The lifecycle of one hook: Uninitialized → Created → Enabled ⇄ Disabled →
//! Removed. Removed is terminal; the only way onward is re-creation under a
//! fresh entry. The registry drives these transitions; this module states
//! which transitions exist.

use vstd::prelude::*;

verus! {

/// Where a hook stands in its lifecycle.
#[derive(Clone, Copy, Debug, PartialEq, Eq, Structural)]
pub enum HookState {
    /// No entry exists for the target yet.
    Uninitialized,
    /// The original bytes and address are captured; no redirect is active.
    Created,
    /// The target's entry bytes currently redirect to the trampoline.
    Enabled,
    /// The redirect was reverted; the captured original remains available.
    Disabled,
    /// The patch is fully reversed and the trampoline memory released.
    Removed,
}

/// The operations that move a hook through its lifecycle.
#[derive(Clone, Copy, Debug, PartialEq, Eq, Structural)]
pub enum HookEvent {
    Create,
    Enable,
    Disable,
    Remove,
}

/// The lifecycle table: the state an event leads to, or nothing where the
/// event is invalid in that state. Re-entrant enable on Enabled and disable
/// on Created/Disabled are no-op successes, so they map to the same state.
pub open spec fn spec_step(s: HookState, ev: HookEvent) -> Option<HookState> {
    match (s, ev) {
        (HookState::Uninitialized, HookEvent::Create) => Some(HookState::Created),
        (HookState::Created, HookEvent::Enable) => Some(HookState::Enabled),
        (HookState::Disabled, HookEvent::Enable) => Some(HookState::Enabled),
        (HookState::Enabled, HookEvent::Enable) => Some(HookState::Enabled),
        (HookState::Enabled, HookEvent::Disable) => Some(HookState::Disabled),
        (HookState::Created, HookEvent::Disable) => Some(HookState::Created),
        (HookState::Disabled, HookEvent::Disable) => Some(HookState::Disabled),
        (HookState::Created, HookEvent::Remove) => Some(HookState::Removed),
        (HookState::Enabled, HookEvent::Remove) => Some(HookState::Removed),
        (HookState::Disabled, HookEvent::Remove) => Some(HookState::Removed),
        _ => None,
    }
}

/// The states a live registry entry can be in: everything between creation
/// and removal.
pub open spec fn spec_live(s: HookState) -> bool {
    s == HookState::Created || s == HookState::Enabled || s == HookState::Disabled
}

/// Executable form of the lifecycle table.
pub fn step(s: HookState, ev: HookEvent) -> (r: Option<HookState>)
    ensures
        r == spec_step(s, ev),
{
    match (s, ev) {
        (HookState::Uninitialized, HookEvent::Create) => Some(HookState::Created),
        (HookState::Created, HookEvent::Enable) => Some(HookState::Enabled),
        (HookState::Disabled, HookEvent::Enable) => Some(HookState::Enabled),
        (HookState::Enabled, HookEvent::Enable) => Some(HookState::Enabled),
        (HookState::Enabled, HookEvent::Disable) => Some(HookState::Disabled),
        (HookState::Created, HookEvent::Disable) => Some(HookState::Created),
        (HookState::Disabled, HookEvent::Disable) => Some(HookState::Disabled),
        (HookState::Created, HookEvent::Remove) => Some(HookState::Removed),
        (HookState::Enabled, HookEvent::Remove) => Some(HookState::Removed),
        (HookState::Disabled, HookEvent::Remove) => Some(HookState::Removed),
        _ => None,
    }
}

/// Removed is terminal: no event leads anywhere from it.
pub proof fn lemma_removed_is_terminal(ev: HookEvent)
    ensures
        spec_step(HookState::Removed, ev) is None,
{
}

/// Enable and disable are idempotent at the lifecycle level: stepping twice
/// with the same one of them reaches the same state as stepping once.
pub proof fn lemma_step_idempotent(s: HookState, ev: HookEvent)
    requires
        ev == HookEvent::Enable || ev == HookEvent::Disable,
        spec_step(s, ev) is Some,
    ensures
        spec_step(spec_step(s, ev)->Some_0, ev) == spec_step(s, ev),
{
}

} // verus!
