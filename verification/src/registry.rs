//! The process-wide hook registry: one entry per hooked target address,
//! each entry owning its captured prologue, its trampoline and original
//! addresses, and its lifecycle state. The registry serializes every
//! operation on an entry (they all take the registry exclusively) and
//! drives the installer so that the per-entry invariant always holds:
//! while an entry is Enabled its target's bytes redirect to its
//! trampoline, and otherwise the original bytes are intact.

use vstd::prelude::*;
use crate::errors::HookError;
use crate::installer::{
    Region, RegionView, spec_apply, spec_capture, spec_revert, apply_redirect, capture_prologue,
    revert_redirect,
};
use crate::patch::REDIRECT_LEN;
use crate::patch::spec_redirect;
use crate::sig::{SignatureDescriptor, SigView, TypeExpr, TypeExprView, spec_descriptor_of};
use crate::state::{HookState, spec_live};

verus! {

/// One installed hook: the registry's record for a target address.
pub struct HookEntry {
    /// Address of the intercepted function.
    pub target: u64,
    /// Address of the shim every redirected call lands in.
    pub trampoline: u64,
    /// Address through which the unmodified original can still be called;
    /// captured at creation and available from then on.
    pub original: u64,
    /// Where the hook stands in its lifecycle.
    pub state: HookState,
    /// The call interface of the target, fixed at creation.
    pub signature: SignatureDescriptor,
    /// The target's entry bytes as they were at creation; what a restore
    /// writes back.
    pub captured: Vec<u8>,
}

/// Mathematical image of a `HookEntry`.
#[verifier::ext_equal]
pub struct EntryView {
    pub target: u64,
    pub trampoline: u64,
    pub original: u64,
    pub state: HookState,
    pub signature: SigView,
    pub captured: Seq<u8>,
}

impl View for HookEntry {
    type V = EntryView;

    open spec fn view(&self) -> EntryView {
        EntryView {
            target: self.target,
            trampoline: self.trampoline,
            original: self.original,
            state: self.state,
            signature: self.signature@,
            captured: self.captured@,
        }
    }
}

/// Mathematical image of the whole registry.
#[verifier::ext_equal]
pub struct RegistryView {
    pub regions: Seq<RegionView>,
    pub entries: Seq<EntryView>,
}

/// The process-wide registry: the images of the known target regions and
/// the live hook entries, one per hooked target.
pub struct Registry {
    regions: Vec<Region>,
    entries: Vec<HookEntry>,
}

impl View for Registry {
    type V = RegistryView;

    closed spec fn view(&self) -> RegistryView {
        RegistryView {
            regions: self.regions@.map_values(|r: Region| r@),
            entries: self.entries@.map_values(|e: HookEntry| e@),
        }
    }
}

/// Index of the first entry for a target, or -1 when none exists.
pub open spec fn entry_index(s: Seq<EntryView>, target: u64) -> int
    decreases s.len(),
{
    if s.len() == 0 {
        -1
    } else if s[0].target == target {
        0
    } else {
        let r = entry_index(s.drop_first(), target);
        if r < 0 {
            -1
        } else {
            r + 1
        }
    }
}

/// Index of the first region based at an address, or -1 when none exists.
pub open spec fn region_index(s: Seq<RegionView>, base: u64) -> int
    decreases s.len(),
{
    if s.len() == 0 {
        -1
    } else if s[0].base == base {
        0
    } else {
        let r = region_index(s.drop_first(), base);
        if r < 0 {
            -1
        } else {
            r + 1
        }
    }
}

/// What `entry_index` finds: a match with none before it, and -1 exactly
/// when no match exists.
pub proof fn lemma_entry_index(s: Seq<EntryView>, target: u64)
    ensures
        -1 <= entry_index(s, target) < s.len(),
        entry_index(s, target) >= 0 ==> s[entry_index(s, target)].target == target,
        forall|j: int| 0 <= j < entry_index(s, target) ==> (#[trigger] s[j]).target != target,
        entry_index(s, target) == -1 ==> forall|j: int|
            0 <= j < s.len() ==> (#[trigger] s[j]).target != target,
    decreases s.len(),
{
    if s.len() > 0 && s[0].target != target {
        let d = s.drop_first();
        lemma_entry_index(d, target);
        assert forall|j: int| 0 <= j < entry_index(s, target) implies (#[trigger] s[j]).target
            != target by {
            if j > 0 {
                assert(d[j - 1] == s[j]);
            }
        }
        if entry_index(s, target) == -1 {
            assert forall|j: int| 0 <= j < s.len() implies (#[trigger] s[j]).target != target by {
                if j > 0 {
                    assert(d[j - 1] == s[j]);
                }
            }
        }
    }
}

/// Any match with no match before it is the index `entry_index` finds.
pub proof fn lemma_entry_index_is_first(s: Seq<EntryView>, target: u64, i: int)
    requires
        0 <= i < s.len(),
        s[i].target == target,
        forall|j: int| 0 <= j < i ==> (#[trigger] s[j]).target != target,
    ensures
        entry_index(s, target) == i,
{
    lemma_entry_index(s, target);
    let e = entry_index(s, target);
    if e == -1 {
        assert(s[i].target != target);
    } else if e < i {
        assert(s[e].target != target);
    } else if e > i {
        assert(s[i].target != target);
    }
}

/// What `region_index` finds, as for `entry_index`.
pub proof fn lemma_region_index(s: Seq<RegionView>, base: u64)
    ensures
        -1 <= region_index(s, base) < s.len(),
        region_index(s, base) >= 0 ==> s[region_index(s, base)].base == base,
        forall|j: int| 0 <= j < region_index(s, base) ==> (#[trigger] s[j]).base != base,
        region_index(s, base) == -1 ==> forall|j: int|
            0 <= j < s.len() ==> (#[trigger] s[j]).base != base,
    decreases s.len(),
{
    if s.len() > 0 && s[0].base != base {
        let d = s.drop_first();
        lemma_region_index(d, base);
        assert forall|j: int| 0 <= j < region_index(s, base) implies (#[trigger] s[j]).base
            != base by {
            if j > 0 {
                assert(d[j - 1] == s[j]);
            }
        }
        if region_index(s, base) == -1 {
            assert forall|j: int| 0 <= j < s.len() implies (#[trigger] s[j]).base != base by {
                if j > 0 {
                    assert(d[j - 1] == s[j]);
                }
            }
        }
    }
}

/// Any match with no match before it is the index `region_index` finds.
pub proof fn lemma_region_index_is_first(s: Seq<RegionView>, base: u64, i: int)
    requires
        0 <= i < s.len(),
        s[i].base == base,
        forall|j: int| 0 <= j < i ==> (#[trigger] s[j]).base != base,
    ensures
        region_index(s, base) == i,
{
    lemma_region_index(s, base);
    let e = region_index(s, base);
    if e == -1 {
        assert(s[i].base != base);
    } else if e < i {
        assert(s[e].base != base);
    } else if e > i {
        assert(s[i].base != base);
    }
}

/// The per-entry invariant: a live state, a captured prologue of redirect
/// length, a known executable region long enough to patch, and bytes that
/// match the state — the redirect while Enabled, the captured original
/// bytes otherwise.
pub open spec fn spec_entry_ok(v: RegistryView, e: EntryView) -> bool {
    &&& spec_live(e.state)
    &&& e.captured.len() == REDIRECT_LEN
    &&& region_index(v.regions, e.target) >= 0
    &&& {
        let r = v.regions[region_index(v.regions, e.target)];
        &&& r.bytes.len() >= REDIRECT_LEN
        &&& r.executable
        &&& (e.state == HookState::Enabled ==> r.bytes.take(REDIRECT_LEN as int)
            == spec_redirect(e.trampoline))
        &&& (e.state != HookState::Enabled ==> r.bytes.take(REDIRECT_LEN as int) == e.captured)
    }
}

/// The registry invariant: region bases unique, one entry per target, and
/// every entry in its per-entry invariant.
pub open spec fn spec_wf(v: RegistryView) -> bool {
    &&& forall|i: int, j: int|
        0 <= i < j < v.regions.len() ==> (#[trigger] v.regions[i]).base != (
        #[trigger] v.regions[j]).base
    &&& forall|i: int, j: int|
        0 <= i < j < v.entries.len() ==> (#[trigger] v.entries[i]).target != (
        #[trigger] v.entries[j]).target
    &&& forall|i: int| 0 <= i < v.entries.len() ==> spec_entry_ok(v, #[trigger] v.entries[i])
}

/// What registering a target region does: nothing when the base is already
/// known, else the region is appended.
pub open spec fn spec_add_region(v: RegistryView, r: RegionView) -> (RegistryView, bool) {
    if region_index(v.regions, r.base) >= 0 {
        (v, false)
    } else {
        (RegistryView { regions: v.regions.push(r), ..v }, true)
    }
}

/// What create does: reject a bad signature, a duplicate target, or an
/// uncapturable region — each leaving the registry untouched — and
/// otherwise append a Created entry holding the captured prologue and the
/// given trampoline and original addresses. No byte is written either way:
/// creation is all-or-nothing.
pub open spec fn spec_create(
    v: RegistryView,
    target: u64,
    ty: TypeExprView,
    trampoline: u64,
    original: u64,
) -> (RegistryView, Result<(), HookError>) {
    match spec_descriptor_of(ty) {
        Option::None => (v, Err(HookError::UnsupportedSignature)),
        Option::Some(d) => if entry_index(v.entries, target) >= 0 {
            (v, Err(HookError::AlreadyHooked))
        } else {
            let ri = region_index(v.regions, target);
            if ri < 0 {
                (v, Err(HookError::UnsupportedInstruction))
            } else {
                match spec_capture(v.regions[ri]) {
                    Result::Err(err) => (v, Err(err)),
                    Result::Ok(p) => (
                        RegistryView {
                            entries: v.entries.push(
                                EntryView {
                                    target,
                                    trampoline,
                                    original,
                                    state: HookState::Created,
                                    signature: d,
                                    captured: p,
                                },
                            ),
                            ..v
                        },
                        Ok(()),
                    ),
                }
            }
        },
    }
}

/// What enable does: fail before create, succeed as a no-op when already
/// Enabled, and otherwise patch the redirect in — after the installer's
/// verification read — and move the entry to Enabled. On any installer
/// failure the registry is untouched.
pub open spec fn spec_enable(v: RegistryView, target: u64) -> (
    RegistryView,
    Result<(), HookError>,
) {
    let ei = entry_index(v.entries, target);
    if ei < 0 {
        (v, Err(HookError::NotInitialized))
    } else {
        let e = v.entries[ei];
        if e.state == HookState::Enabled {
            (v, Ok(()))
        } else {
            let ri = region_index(v.regions, target);
            if ri < 0 {
                (v, Err(HookError::NotInitialized))
            } else {
                let step = spec_apply(v.regions[ri], e.trampoline, e.captured);
                match step.1 {
                    Result::Err(err) => (v, Err(err)),
                    Result::Ok(_) => (
                        RegistryView {
                            regions: v.regions.update(ri, step.0),
                            entries: v.entries.update(
                                ei,
                                EntryView { state: HookState::Enabled, ..e },
                            ),
                        },
                        Ok(()),
                    ),
                }
            }
        }
    }
}

/// What disable does: fail before create, succeed as a no-op when not
/// Enabled, and otherwise restore the captured bytes — after the
/// installer's verification read — and move the entry to Disabled. On any
/// installer failure the registry is untouched.
pub open spec fn spec_disable(v: RegistryView, target: u64) -> (
    RegistryView,
    Result<(), HookError>,
) {
    let ei = entry_index(v.entries, target);
    if ei < 0 {
        (v, Err(HookError::NotInitialized))
    } else {
        let e = v.entries[ei];
        if e.state != HookState::Enabled {
            (v, Ok(()))
        } else {
            let ri = region_index(v.regions, target);
            if ri < 0 {
                (v, Err(HookError::NotInitialized))
            } else {
                let step = spec_revert(v.regions[ri], e.trampoline, e.captured);
                match step.1 {
                    Result::Err(err) => (v, Err(err)),
                    Result::Ok(_) => (
                        RegistryView {
                            regions: v.regions.update(ri, step.0),
                            entries: v.entries.update(
                                ei,
                                EntryView { state: HookState::Disabled, ..e },
                            ),
                        },
                        Ok(()),
                    ),
                }
            }
        }
    }
}

/// What remove does: fail before create; restore the original bytes first
/// when the entry is Enabled (failing untouched if the installer refuses);
/// then drop the entry — Removed is terminal, and only a fresh create can
/// hook the target again. The entry's trampoline memory is released with
/// the entry, exactly once.
pub open spec fn spec_remove(v: RegistryView, target: u64) -> (
    RegistryView,
    Result<(), HookError>,
) {
    let ei = entry_index(v.entries, target);
    if ei < 0 {
        (v, Err(HookError::NotInitialized))
    } else {
        let e = v.entries[ei];
        if e.state == HookState::Enabled {
            let ri = region_index(v.regions, target);
            if ri < 0 {
                (v, Err(HookError::NotInitialized))
            } else {
                let step = spec_revert(v.regions[ri], e.trampoline, e.captured);
                match step.1 {
                    Result::Err(err) => (v, Err(err)),
                    Result::Ok(_) => (
                        RegistryView {
                            regions: v.regions.update(ri, step.0),
                            entries: v.entries.remove(ei),
                        },
                        Ok(()),
                    ),
                }
            }
        } else {
            (RegistryView { entries: v.entries.remove(ei), ..v }, Ok(()))
        }
    }
}

/// What a whole hook request does: create, then enable. A creation failure
/// leaves the registry untouched; an enable failure leaves the hook
/// Created with no redirect installed.
pub open spec fn spec_install(
    v: RegistryView,
    target: u64,
    ty: TypeExprView,
    trampoline: u64,
    original: u64,
) -> (RegistryView, Result<(), HookError>) {
    let created = spec_create(v, target, ty, trampoline, original);
    match created.1 {
        Result::Err(err) => (created.0, Err(err)),
        Result::Ok(_) => spec_enable(created.0, target),
    }
}

impl Registry {
    /// An empty registry: no regions known, no hooks installed.
    pub fn new() -> (r: Registry)
        ensures
            r@.regions.len() == 0,
            r@.entries.len() == 0,
            spec_wf(r@),
    {
        Registry { regions: Vec::new(), entries: Vec::new() }
    }

    /// Index of the live entry for a target, if one exists.
    fn find_entry(&self, target: u64) -> (r: Option<usize>)
        ensures
            match r {
                Some(i) => entry_index(self@.entries, target) == i as int && (i as int)
                    < self@.entries.len(),
                None => entry_index(self@.entries, target) == -1,
            },
    {
        let mut i: usize = 0;
        while i < self.entries.len()
            invariant
                i <= self@.entries.len(),
                self@.entries.len() == self.entries@.len(),
                forall|j: int| 0 <= j < i ==> (#[trigger] self@.entries[j]).target != target,
            decreases self@.entries.len() - i,
        {
            proof {
                assert(self@.entries[i as int] == self.entries@[i as int]@);
            }
            if self.entries[i].target == target {
                proof {
                    lemma_entry_index_is_first(self@.entries, target, i as int);
                }
                return Some(i);
            }
            i += 1;
        }
        proof {
            lemma_entry_index(self@.entries, target);
        }
        None
    }

    /// Index of the known region based at an address, if one exists.
    fn find_region(&self, base: u64) -> (r: Option<usize>)
        ensures
            match r {
                Some(i) => region_index(self@.regions, base) == i as int && (i as int)
                    < self@.regions.len(),
                None => region_index(self@.regions, base) == -1,
            },
    {
        let mut i: usize = 0;
        while i < self.regions.len()
            invariant
                i <= self@.regions.len(),
                self@.regions.len() == self.regions@.len(),
                forall|j: int| 0 <= j < i ==> (#[trigger] self@.regions[j]).base != base,
            decreases self@.regions.len() - i,
        {
            proof {
                assert(self@.regions[i as int] == self.regions@[i as int]@);
            }
            if self.regions[i].base == base {
                proof {
                    lemma_region_index_is_first(self@.regions, base, i as int);
                }
                return Some(i);
            }
            i += 1;
        }
        proof {
            lemma_region_index(self@.regions, base);
        }
        None
    }

    /// Number of live hook entries.
    pub fn hook_count(&self) -> (n: usize)
        ensures
            n == self@.entries.len(),
    {
        self.entries.len()
    }

    /// The lifecycle state of the hook on a target, if one exists.
    pub fn state_of(&self, target: u64) -> (r: Option<HookState>)
        ensures
            match r {
                Some(st) => entry_index(self@.entries, target) >= 0 && st == self@.entries[
                    entry_index(self@.entries, target)
                ].state,
                None => entry_index(self@.entries, target) == -1,
            },
    {
        match self.find_entry(target) {
            Some(i) => {
                proof {
                    assert(self@.entries[i as int] == self.entries@[i as int]@);
                }
                Some(self.entries[i].state)
            },
            None => None,
        }
    }

    /// The captured original address for a target's hook, if one exists:
    /// populated at create and available from then on.
    pub fn original_address(&self, target: u64) -> (r: Option<u64>)
        ensures
            match r {
                Some(a) => entry_index(self@.entries, target) >= 0 && a == self@.entries[
                    entry_index(self@.entries, target)
                ].original,
                None => entry_index(self@.entries, target) == -1,
            },
    {
        match self.find_entry(target) {
            Some(i) => {
                proof {
                    assert(self@.entries[i as int] == self.entries@[i as int]@);
                }
                Some(self.entries[i].original)
            },
            None => None,
        }
    }

    /// A snapshot of the bytes of the region based at an address, if the
    /// region is known.
    pub fn region_bytes(&self, base: u64) -> (r: Option<Vec<u8>>)
        ensures
            match r {
                Some(b) => region_index(self@.regions, base) >= 0 && b@ == self@.regions[
                    region_index(self@.regions, base)
                ].bytes,
                None => region_index(self@.regions, base) == -1,
            },
    {
        match self.find_region(base) {
            Some(i) => {
                proof {
                    assert(self@.regions[i as int] == self.regions@[i as int]@);
                }
                let src = &self.regions[i].bytes;
                let mut out: Vec<u8> = Vec::new();
                let mut k: usize = 0;
                while k < src.len()
                    invariant
                        k <= src@.len(),
                        out@ =~= src@.take(k as int),
                    decreases src@.len() - k,
                {
                    let b = src[k];
                    out.push(b);
                    k += 1;
                }
                proof {
                    assert(out@ =~= src@);
                }
                Some(out)
            },
            None => None,
        }
    }

    /// Makes a target's code region known to the registry, handing it the
    /// image of the target's entry bytes. Refused (returning false, with
    /// nothing changed) when a region at that base is already registered.
    pub fn add_region(&mut self, region: Region) -> (r: bool)
        requires
            spec_wf(old(self)@),
        ensures
            final(self)@ == spec_add_region(old(self)@, region@).0,
            r == spec_add_region(old(self)@, region@).1,
            spec_wf(final(self)@),
    {
        proof {
            lemma_wf_add_region(old(self)@, region@);
        }
        let base = region.base;
        match self.find_region(base) {
            Some(_) => false,
            None => {
                self.regions.push(region);
                proof {
                    assert(self@.regions =~= old(self)@.regions.push(region@));
                    assert(self@ =~= spec_add_region(old(self)@, region@).0);
                }
                true
            },
        }
    }

    /// Creates a hook: builds the signature descriptor (rejecting variadic
    /// and non-function types), refuses a target already hooked, captures
    /// the target's prologue and original address, and registers a Created
    /// entry for the given trampoline. All-or-nothing: on any failure the
    /// registry and every byte are exactly as before, and no byte is
    /// written even on success — only enable installs the redirect.
    pub fn create(&mut self, target: u64, ty: &TypeExpr, trampoline: u64, original: u64) -> (r:
        Result<(), HookError>)
        requires
            spec_wf(old(self)@),
        ensures
            final(self)@ == spec_create(old(self)@, target, ty@, trampoline, original).0,
            r == spec_create(old(self)@, target, ty@, trampoline, original).1,
            spec_wf(final(self)@),
    {
        proof {
            lemma_wf_create(old(self)@, target, ty@, trampoline, original);
        }
        let descriptor = match SignatureDescriptor::from_type(ty) {
            Err(e) => {
                return Err(e);
            },
            Ok(d) => d,
        };
        if self.find_entry(target).is_some() {
            return Err(HookError::AlreadyHooked);
        }
        let ri = match self.find_region(target) {
            None => {
                return Err(HookError::UnsupportedInstruction);
            },
            Some(i) => i,
        };
        proof {
            assert(self@.regions[ri as int] == self.regions@[ri as int]@);
        }
        let captured = match capture_prologue(&self.regions[ri]) {
            Err(e) => {
                return Err(e);
            },
            Ok(p) => p,
        };
        let entry = HookEntry {
            target,
            trampoline,
            original,
            state: HookState::Created,
            signature: descriptor,
            captured,
        };
        proof {
            assert(old(self)@.entries.push(entry@) =~= spec_create(
                old(self)@,
                target,
                ty@,
                trampoline,
                original,
            ).0.entries);
        }
        self.entries.push(entry);
        proof {
            assert(self@.entries =~= old(self)@.entries.push(entry@));
            assert(self@ =~= spec_create(old(self)@, target, ty@, trampoline, original).0);
        }
        Ok(())
    }

    /// Enables the hook on a target: patches the redirect over the
    /// target's prologue and moves the entry to Enabled. A second enable
    /// in a row is a no-op success. Fails with `NotInitialized` before
    /// create, and with the installer's error — registry and bytes
    /// untouched — when the patch cannot be installed.
    pub fn enable(&mut self, target: u64) -> (r: Result<(), HookError>)
        requires
            spec_wf(old(self)@),
        ensures
            final(self)@ == spec_enable(old(self)@, target).0,
            r == spec_enable(old(self)@, target).1,
            spec_wf(final(self)@),
    {
        proof {
            lemma_wf_enable(old(self)@, target);
        }
        let ei = match self.find_entry(target) {
            None => {
                return Err(HookError::NotInitialized);
            },
            Some(i) => i,
        };
        proof {
            assert(self@.entries[ei as int] == self.entries@[ei as int]@);
        }
        if matches!(self.entries[ei].state, HookState::Enabled) {
            return Ok(());
        }
        let ri = match self.find_region(target) {
            None => {
                return Err(HookError::NotInitialized);
            },
            Some(i) => i,
        };
        proof {
            assert(self@.regions[ri as int] == self.regions@[ri as int]@);
            assert(spec_entry_ok(old(self)@, old(self)@.entries[ei as int]));
            lemma_entry_index(old(self)@.entries, target);
        }
        let trampoline = self.entries[ei].trampoline;
        let mut region = self.regions.remove(ri);
        proof {
            assert(region@ == old(self)@.regions[ri as int]);
            assert(region@.bytes.len() >= REDIRECT_LEN);
        }
        let res = apply_redirect(&mut region, trampoline, &self.entries[ei].captured);
        self.regions.insert(ri, region);
        proof {
            lemma_remove_insert(self.regions@, ri as int, self.regions@[ri as int]);
            assert(self@.regions =~= old(self)@.regions.update(ri as int, region@));
        }
        match res {
            Err(e) => {
                proof {
                    assert(self@.regions =~= old(self)@.regions);
                    assert(self@ =~= old(self)@);
                }
                Err(e)
            },
            Ok(_) => {
                let mut entry = self.entries.remove(ei);
                entry.state = HookState::Enabled;
                self.entries.insert(ei, entry);
                proof {
                    lemma_remove_insert(self.entries@, ei as int, self.entries@[ei as int]);
                    assert(self@.entries =~= old(self)@.entries.update(ei as int, entry@));
                    assert(self@ =~= spec_enable(old(self)@, target).0);
                }
                Ok(())
            },
        }
    }

    /// Disables the hook on a target: restores the captured original bytes
    /// and moves the entry to Disabled. Disable on an entry that is not
    /// Enabled is a no-op success. Fails with `NotInitialized` before
    /// create, and with the installer's error — registry and bytes
    /// untouched — when the restore cannot be installed.
    pub fn disable(&mut self, target: u64) -> (r: Result<(), HookError>)
        requires
            spec_wf(old(self)@),
        ensures
            final(self)@ == spec_disable(old(self)@, target).0,
            r == spec_disable(old(self)@, target).1,
            spec_wf(final(self)@),
    {
        proof {
            lemma_wf_disable(old(self)@, target);
        }
        let ei = match self.find_entry(target) {
            None => {
                return Err(HookError::NotInitialized);
            },
            Some(i) => i,
        };
        proof {
            assert(self@.entries[ei as int] == self.entries@[ei as int]@);
        }
        if !matches!(self.entries[ei].state, HookState::Enabled) {
            return Ok(());
        }
        let ri = match self.find_region(target) {
            None => {
                return Err(HookError::NotInitialized);
            },
            Some(i) => i,
        };
        proof {
            assert(self@.regions[ri as int] == self.regions@[ri as int]@);
            assert(spec_entry_ok(old(self)@, old(self)@.entries[ei as int]));
            lemma_entry_index(old(self)@.entries, target);
        }
        let trampoline = self.entries[ei].trampoline;
        let mut region = self.regions.remove(ri);
        proof {
            assert(region@ == old(self)@.regions[ri as int]);
            assert(region@.bytes.len() >= REDIRECT_LEN);
        }
        let res = revert_redirect(&mut region, trampoline, &self.entries[ei].captured);
        self.regions.insert(ri, region);
        proof {
            lemma_remove_insert(self.regions@, ri as int, self.regions@[ri as int]);
            assert(self@.regions =~= old(self)@.regions.update(ri as int, region@));
        }
        match res {
            Err(e) => {
                proof {
                    assert(self@.regions =~= old(self)@.regions);
                    assert(self@ =~= old(self)@);
                }
                Err(e)
            },
            Ok(_) => {
                let mut entry = self.entries.remove(ei);
                entry.state = HookState::Disabled;
                self.entries.insert(ei, entry);
                proof {
                    lemma_remove_insert(self.entries@, ei as int, self.entries@[ei as int]);
                    assert(self@.entries =~= old(self)@.entries.update(ei as int, entry@));
                    assert(self@ =~= spec_disable(old(self)@, target).0);
                }
                Ok(())
            },
        }
    }

    /// Removes the hook on a target: restores the original bytes first if
    /// the redirect is still installed, then drops the entry — releasing
    /// its trampoline memory exactly once. After removal only a fresh
    /// create can hook the target again; every other operation fails with
    /// `NotInitialized`.
    pub fn remove(&mut self, target: u64) -> (r: Result<(), HookError>)
        requires
            spec_wf(old(self)@),
        ensures
            final(self)@ == spec_remove(old(self)@, target).0,
            r == spec_remove(old(self)@, target).1,
            spec_wf(final(self)@),
    {
        proof {
            lemma_wf_remove(old(self)@, target);
        }
        let ei = match self.find_entry(target) {
            None => {
                return Err(HookError::NotInitialized);
            },
            Some(i) => i,
        };
        proof {
            assert(self@.entries[ei as int] == self.entries@[ei as int]@);
        }
        if matches!(self.entries[ei].state, HookState::Enabled) {
            let ri = match self.find_region(target) {
                None => {
                    return Err(HookError::NotInitialized);
                },
                Some(i) => i,
            };
            proof {
                assert(self@.regions[ri as int] == self.regions@[ri as int]@);
                assert(spec_entry_ok(old(self)@, old(self)@.entries[ei as int]));
                lemma_entry_index(old(self)@.entries, target);
            }
            let trampoline = self.entries[ei].trampoline;
            let mut region = self.regions.remove(ri);
            proof {
                assert(region@ == old(self)@.regions[ri as int]);
                assert(region@.bytes.len() >= REDIRECT_LEN);
            }
            let res = revert_redirect(&mut region, trampoline, &self.entries[ei].captured);
            self.regions.insert(ri, region);
            proof {
                lemma_remove_insert(self.regions@, ri as int, self.regions@[ri as int]);
                assert(self@.regions =~= old(self)@.regions.update(ri as int, region@));
            }
            match res {
                Err(e) => {
                    proof {
                        assert(self@.regions =~= old(self)@.regions);
                        assert(self@ =~= old(self)@);
                    }
                    return Err(e);
                },
                Ok(_) => {},
            }
        }
        self.entries.remove(ei);
        proof {
            assert(self@.entries =~= old(self)@.entries.remove(ei as int));
            assert(self@ =~= spec_remove(old(self)@, target).0);
        }
        Ok(())
    }

    /// A whole hook request: create, then enable. The returned error is
    /// the first failure; a creation failure leaves the registry
    /// untouched, an enable failure leaves the hook Created with no
    /// redirect installed.
    pub fn install_hook(&mut self, target: u64, ty: &TypeExpr, trampoline: u64, original: u64)
        -> (r: Result<(), HookError>)
        requires
            spec_wf(old(self)@),
        ensures
            final(self)@ == spec_install(old(self)@, target, ty@, trampoline, original).0,
            r == spec_install(old(self)@, target, ty@, trampoline, original).1,
            spec_wf(final(self)@),
    {
        match self.create(target, ty, trampoline, original) {
            Err(e) => Err(e),
            Ok(_) => self.enable(target),
        }
    }
}

/// Removing an element and inserting another at the same position is a
/// point update.
proof fn lemma_remove_insert<A>(s: Seq<A>, i: int, x: A)
    requires
        0 <= i < s.len(),
    ensures
        s.remove(i).insert(i, x) =~= s.update(i, x),
{
}

/// Appending a region leaves every known region where `region_index` found
/// it.
proof fn lemma_region_index_stable_push(s: Seq<RegionView>, r: RegionView, base: u64)
    requires
        region_index(s, base) >= 0,
    ensures
        region_index(s.push(r), base) == region_index(s, base),
{
    lemma_region_index(s, base);
    lemma_region_index_is_first(s.push(r), base, region_index(s, base));
}

/// A base-preserving update leaves every `region_index` unchanged.
proof fn lemma_region_index_stable_update(s: Seq<RegionView>, k: int, r: RegionView, base: u64)
    requires
        0 <= k < s.len(),
        r.base == s[k].base,
        region_index(s, base) >= 0,
    ensures
        region_index(s.update(k, r), base) == region_index(s, base),
{
    lemma_region_index(s, base);
    lemma_region_index_is_first(s.update(k, r), base, region_index(s, base));
}

/// Registering a fresh region keeps the registry invariant.
proof fn lemma_wf_add_region(v: RegistryView, r: RegionView)
    requires
        spec_wf(v),
    ensures
        spec_wf(spec_add_region(v, r).0),
{
    lemma_region_index(v.regions, r.base);
    if region_index(v.regions, r.base) < 0 {
        let v2 = spec_add_region(v, r).0;
        assert forall|i: int, j: int| 0 <= i < j < v2.regions.len() implies (
        #[trigger] v2.regions[i]).base != (#[trigger] v2.regions[j]).base by {
            if j == v.regions.len() as int {
                assert(v.regions[i].base != r.base);
            }
        }
        assert forall|i: int| 0 <= i < v2.entries.len() implies spec_entry_ok(
            v2,
            #[trigger] v2.entries[i],
        ) by {
            let e = v2.entries[i];
            assert(spec_entry_ok(v, e));
            lemma_region_index(v.regions, e.target);
            lemma_region_index_stable_push(v.regions, r, e.target);
        }
    }
}

/// Creating a hook keeps the registry invariant.
proof fn lemma_wf_create(v: RegistryView, target: u64, ty: TypeExprView, trampoline: u64, original: u64)
    requires
        spec_wf(v),
    ensures
        spec_wf(spec_create(v, target, ty, trampoline, original).0),
{
    let v2 = spec_create(v, target, ty, trampoline, original).0;
    if spec_create(v, target, ty, trampoline, original).1 is Ok {
        lemma_entry_index(v.entries, target);
        lemma_region_index(v.regions, target);
        let ri = region_index(v.regions, target);
        assert forall|i: int, j: int| 0 <= i < j < v2.entries.len() implies (
        #[trigger] v2.entries[i]).target != (#[trigger] v2.entries[j]).target by {
            if j == v.entries.len() as int {
                assert(v.entries[i].target != target);
            }
        }
        assert forall|i: int| 0 <= i < v2.entries.len() implies spec_entry_ok(
            v2,
            #[trigger] v2.entries[i],
        ) by {
            if i < v.entries.len() {
                assert(spec_entry_ok(v, v.entries[i]));
                assert(v2.entries[i] == v.entries[i]);
            } else {
                assert(v2.regions[ri].bytes.take(REDIRECT_LEN as int) == v2.entries[i].captured);
            }
        }
    }
}

/// Enabling keeps the registry invariant.
proof fn lemma_wf_enable(v: RegistryView, target: u64)
    requires
        spec_wf(v),
    ensures
        spec_wf(spec_enable(v, target).0),
{
    let ei = entry_index(v.entries, target);
    lemma_entry_index(v.entries, target);
    if ei >= 0 && v.entries[ei].state != HookState::Enabled {
        let ri = region_index(v.regions, target);
        lemma_region_index(v.regions, target);
        if ri >= 0 {
            let e = v.entries[ei];
            let step = spec_apply(v.regions[ri], e.trampoline, e.captured);
            if step.1 is Ok {
                let v2 = spec_enable(v, target).0;
                assert(step.0.bytes =~= spec_redirect(e.trampoline) + v.regions[ri].bytes.skip(
                    REDIRECT_LEN as int,
                ));
                assert(step.0.bytes.take(REDIRECT_LEN as int) =~= spec_redirect(e.trampoline));
                assert forall|i: int| 0 <= i < v2.entries.len() implies spec_entry_ok(
                    v2,
                    #[trigger] v2.entries[i],
                ) by {
                    let ek = v2.entries[i];
                    lemma_region_index(v.regions, ek.target);
                    lemma_region_index_stable_update(v.regions, ri, step.0, ek.target);
                    if i != ei {
                        assert(spec_entry_ok(v, v.entries[i]));
                        assert(ek == v.entries[i]);
                        assert(v.regions[ri].base == target);
                        assert(region_index(v.regions, ek.target) != ri);
                    } else {
                        assert(spec_entry_ok(v, e));
                    }
                }
            }
        }
    }
}

/// Disabling keeps the registry invariant.
proof fn lemma_wf_disable(v: RegistryView, target: u64)
    requires
        spec_wf(v),
    ensures
        spec_wf(spec_disable(v, target).0),
{
    let ei = entry_index(v.entries, target);
    lemma_entry_index(v.entries, target);
    if ei >= 0 && v.entries[ei].state == HookState::Enabled {
        let ri = region_index(v.regions, target);
        lemma_region_index(v.regions, target);
        if ri >= 0 {
            let e = v.entries[ei];
            let step = spec_revert(v.regions[ri], e.trampoline, e.captured);
            if step.1 is Ok {
                let v2 = spec_disable(v, target).0;
                assert(spec_entry_ok(v, e));
                assert(step.0.bytes =~= e.captured + v.regions[ri].bytes.skip(
                    REDIRECT_LEN as int,
                ));
                assert(step.0.bytes.take(REDIRECT_LEN as int) =~= e.captured);
                assert forall|i: int| 0 <= i < v2.entries.len() implies spec_entry_ok(
                    v2,
                    #[trigger] v2.entries[i],
                ) by {
                    let ek = v2.entries[i];
                    lemma_region_index(v.regions, ek.target);
                    lemma_region_index_stable_update(v.regions, ri, step.0, ek.target);
                    if i != ei {
                        assert(spec_entry_ok(v, v.entries[i]));
                        assert(ek == v.entries[i]);
                        assert(v.regions[ri].base == target);
                        assert(region_index(v.regions, ek.target) != ri);
                    }
                }
            }
        }
    }
}

/// Removing keeps the registry invariant.
proof fn lemma_wf_remove(v: RegistryView, target: u64)
    requires
        spec_wf(v),
    ensures
        spec_wf(spec_remove(v, target).0),
{
    let ei = entry_index(v.entries, target);
    lemma_entry_index(v.entries, target);
    if ei >= 0 {
        let e = v.entries[ei];
        let v2 = spec_remove(v, target).0;
        if e.state == HookState::Enabled {
            let ri = region_index(v.regions, target);
            lemma_region_index(v.regions, target);
            if ri >= 0 {
                let step = spec_revert(v.regions[ri], e.trampoline, e.captured);
                if step.1 is Ok {
                    assert(spec_entry_ok(v, e));
                    assert forall|i: int| 0 <= i < v2.entries.len() implies spec_entry_ok(
                        v2,
                        #[trigger] v2.entries[i],
                    ) by {
                        let ek = v2.entries[i];
                        assert(ek == if i < ei {
                            v.entries[i]
                        } else {
                            v.entries[i + 1]
                        });
                        assert(spec_entry_ok(v, ek));
                        lemma_region_index(v.regions, ek.target);
                        lemma_region_index_stable_update(v.regions, ri, step.0, ek.target);
                        assert(v.regions[ri].base == target);
                        assert(region_index(v.regions, ek.target) != ri);
                    }
                    assert forall|i: int, j: int| 0 <= i < j < v2.entries.len() implies (
                    #[trigger] v2.entries[i]).target != (#[trigger] v2.entries[j]).target by {
                        assert(v2.entries[i] == if i < ei {
                            v.entries[i]
                        } else {
                            v.entries[i + 1]
                        });
                        assert(v2.entries[j] == if j < ei {
                            v.entries[j]
                        } else {
                            v.entries[j + 1]
                        });
                    }
                }
            }
        } else {
            assert forall|i: int| 0 <= i < v2.entries.len() implies spec_entry_ok(
                v2,
                #[trigger] v2.entries[i],
            ) by {
                let ek = v2.entries[i];
                assert(ek == if i < ei {
                    v.entries[i]
                } else {
                    v.entries[i + 1]
                });
                assert(spec_entry_ok(v, ek));
            }
            assert forall|i: int, j: int| 0 <= i < j < v2.entries.len() implies (
            #[trigger] v2.entries[i]).target != (#[trigger] v2.entries[j]).target by {
                assert(v2.entries[i] == if i < ei {
                    v.entries[i]
                } else {
                    v.entries[i + 1]
                });
                assert(v2.entries[j] == if j < ei {
                    v.entries[j]
                } else {
                    v.entries[j + 1]
                });
            }
        }
    }
}

} // verus!
