//! The installer: byte-level operations against a target's entry bytes. It
//! captures a prologue so it can later be restored, flips a redirect on and
//! off, and verifies before every write that no other agent has modified
//! the bytes since capture. The engine works on an explicit image of each
//! target region; carrying these writes into live code pages is the
//! platform collaborator's duty and stays outside the engine.

use vstd::prelude::*;
use crate::errors::HookError;
use crate::patch::{spec_overwrite_prefix, spec_redirect, encode_redirect, REDIRECT_LEN};

verus! {

/// The image of one target's code region: its base address, its bytes, and
/// what the platform reports about the page.
pub struct Region {
    /// Address of the first byte; the target's entry point.
    pub base: u64,
    /// The region's bytes, starting at the entry point.
    pub bytes: Vec<u8>,
    /// Whether the page is executable; a non-executable page cannot hold a
    /// function and is refused at capture.
    pub executable: bool,
    /// Whether the platform lets the page be made writable + executable;
    /// without that no patch or restore can be installed.
    pub protect_allowed: bool,
}

/// Mathematical image of a `Region`.
#[verifier::ext_equal]
pub struct RegionView {
    pub base: u64,
    pub bytes: Seq<u8>,
    pub executable: bool,
    pub protect_allowed: bool,
}

impl View for Region {
    type V = RegionView;

    open spec fn view(&self) -> RegionView {
        RegionView {
            base: self.base,
            bytes: self.bytes@,
            executable: self.executable,
            protect_allowed: self.protect_allowed,
        }
    }
}

/// Whether a region's prologue is long enough to hold the redirect and may
/// be executed at all: the precondition for capturing it.
pub open spec fn spec_can_capture(r: RegionView) -> bool {
    r.executable && r.bytes.len() >= REDIRECT_LEN
}

/// What capture yields: the prologue bytes, or the rejection.
pub open spec fn spec_capture(r: RegionView) -> Result<Seq<u8>, HookError> {
    if spec_can_capture(r) {
        Ok(r.bytes.take(REDIRECT_LEN as int))
    } else {
        Err(HookError::UnsupportedInstruction)
    }
}

/// The region after a patch write: `p` over the front, tail untouched,
/// page facts unchanged.
pub open spec fn spec_written(r: RegionView, p: Seq<u8>) -> RegionView {
    RegionView { bytes: spec_overwrite_prefix(r.bytes, p), ..r }
}

/// What applying the redirect does to a region: refused while the page
/// cannot be reprotected, refused when the bytes no longer read `expected`
/// (another agent wrote them), otherwise the redirect for `trampoline` is
/// written over the prologue.
pub open spec fn spec_apply(r: RegionView, trampoline: u64, expected: Seq<u8>) -> (RegionView, Result<(), HookError>) {
    if !r.protect_allowed {
        (r, Err(HookError::MemoryProtectionDenied))
    } else if r.bytes.take(expected.len() as int) != expected {
        (r, Err(HookError::ConcurrentModification))
    } else {
        (spec_written(r, spec_redirect(trampoline)), Ok(()))
    }
}

/// What reverting the redirect does to a region: refused while the page
/// cannot be reprotected, refused when the prologue is not the redirect
/// this entry installed, otherwise the captured bytes are written back.
pub open spec fn spec_revert(r: RegionView, trampoline: u64, captured: Seq<u8>) -> (RegionView, Result<(), HookError>) {
    if !r.protect_allowed {
        (r, Err(HookError::MemoryProtectionDenied))
    } else if r.bytes.take(REDIRECT_LEN as int) != spec_redirect(trampoline) {
        (r, Err(HookError::ConcurrentModification))
    } else {
        (spec_written(r, captured), Ok(()))
    }
}

/// Compares the front of a region's bytes with an expected prologue.
fn prologue_matches(bytes: &Vec<u8>, expected: &Vec<u8>) -> (r: bool)
    requires
        expected@.len() <= bytes@.len(),
    ensures
        r <==> bytes@.take(expected@.len() as int) == expected@,
{
    let mut i: usize = 0;
    while i < expected.len()
        invariant
            i <= expected@.len(),
            expected@.len() <= bytes@.len(),
            forall|j: int| 0 <= j < i ==> bytes@[j] == expected@[j],
        decreases expected@.len() - i,
    {
        if bytes[i] != expected[i] {
            proof {
                assert(bytes@.take(expected@.len() as int)[i as int] != expected@[i as int]);
            }
            return false;
        }
        i += 1;
    }
    proof {
        assert(bytes@.take(expected@.len() as int) =~= expected@);
    }
    true
}

/// Writes `p` over the front of the region's bytes.
fn write_prologue(region: &mut Region, p: &Vec<u8>)
    requires
        p@.len() <= old(region)@.bytes.len(),
    ensures
        final(region)@ == spec_written(old(region)@, p@),
{
    let mut i: usize = 0;
    while i < p.len()
        invariant
            i <= p@.len(),
            p@.len() <= region@.bytes.len(),
            region@.base == old(region)@.base,
            region@.executable == old(region)@.executable,
            region@.protect_allowed == old(region)@.protect_allowed,
            region@.bytes.len() == old(region)@.bytes.len(),
            forall|j: int| 0 <= j < i ==> region@.bytes[j] == p@[j],
            forall|j: int| i <= j < region@.bytes.len() ==> region@.bytes[j]
                == old(region)@.bytes[j],
        decreases p@.len() - i,
    {
        let b = p[i];
        region.bytes.set(i, b);
        i += 1;
    }
    proof {
        assert(region@.bytes =~= spec_overwrite_prefix(old(region)@.bytes, p@));
        assert(region@ =~= spec_written(old(region)@, p@));
    }
}

/// Captures the prologue of a target region: the bytes a later restore
/// writes back, and the bytes from which a call to the unmodified original
/// is synthesized. Fails with `UnsupportedInstruction` when the region is
/// not executable or too short to hold the redirect; nothing is written in
/// any case.
pub fn capture_prologue(region: &Region) -> (r: Result<Vec<u8>, HookError>)
    ensures
        match r {
            Ok(p) => spec_capture(region@) == Ok::<Seq<u8>, HookError>(p@),
            Err(e) => spec_capture(region@) == Err::<Seq<u8>, HookError>(e),
        },
{
    if !region.executable || region.bytes.len() < REDIRECT_LEN {
        return Err(HookError::UnsupportedInstruction);
    }
    let mut p: Vec<u8> = Vec::new();
    let mut i: usize = 0;
    while i < REDIRECT_LEN
        invariant
            i <= REDIRECT_LEN,
            region@.bytes.len() >= REDIRECT_LEN,
            p@ =~= region@.bytes.take(i as int),
        decreases REDIRECT_LEN - i,
    {
        let b = region.bytes[i];
        p.push(b);
        i += 1;
    }
    proof {
        assert(p@ =~= region@.bytes.take(REDIRECT_LEN as int));
    }
    Ok(p)
}

/// Flips the redirect on: after a verification read confirms the prologue
/// still holds `expected`, the redirect for `trampoline` is written over
/// it. Fails with `MemoryProtectionDenied` when the page cannot be made
/// writable + executable, and with `ConcurrentModification` when the
/// verification read sees other bytes; on failure the region is untouched.
pub fn apply_redirect(region: &mut Region, trampoline: u64, expected: &Vec<u8>) -> (r: Result<
    (),
    HookError,
>)
    requires
        expected@.len() == REDIRECT_LEN,
        old(region)@.bytes.len() >= REDIRECT_LEN,
    ensures
        final(region)@ == spec_apply(old(region)@, trampoline, expected@).0,
        r == spec_apply(old(region)@, trampoline, expected@).1,
{
    if !region.protect_allowed {
        return Err(HookError::MemoryProtectionDenied);
    }
    if !prologue_matches(&region.bytes, expected) {
        return Err(HookError::ConcurrentModification);
    }
    let redirect = encode_redirect(trampoline);
    write_prologue(region, &redirect);
    proof {
        assert(region@ =~= spec_apply(old(region)@, trampoline, expected@).0);
    }
    Ok(())
}

/// Flips the redirect off: after a verification read confirms the prologue
/// is exactly the redirect this entry installed, the captured bytes are
/// written back. The error cases mirror `apply_redirect`; on failure the
/// region is untouched.
pub fn revert_redirect(region: &mut Region, trampoline: u64, captured: &Vec<u8>) -> (r: Result<
    (),
    HookError,
>)
    requires
        captured@.len() == REDIRECT_LEN,
        old(region)@.bytes.len() >= REDIRECT_LEN,
    ensures
        final(region)@ == spec_revert(old(region)@, trampoline, captured@).0,
        r == spec_revert(old(region)@, trampoline, captured@).1,
{
    if !region.protect_allowed {
        return Err(HookError::MemoryProtectionDenied);
    }
    let redirect = encode_redirect(trampoline);
    if !prologue_matches(&region.bytes, &redirect) {
        return Err(HookError::ConcurrentModification);
    }
    write_prologue(region, captured);
    proof {
        assert(region@ =~= spec_revert(old(region)@, trampoline, captured@).0);
    }
    Ok(())
}

} // verus!
