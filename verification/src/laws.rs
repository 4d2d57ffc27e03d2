//! The engine's laws: properties of whole operation sequences, proved over
//! the registry's transition functions. Each law holds for every registry
//! the invariant admits, not just for the scenarios the tests replay.

use vstd::prelude::*;
use crate::errors::HookError;
use crate::registry::{
    RegistryView, entry_index, region_index, lemma_entry_index, lemma_entry_index_is_first,
    lemma_region_index, spec_create, spec_remove, spec_enable, spec_disable, spec_install,
    spec_wf, spec_entry_ok,
};
use crate::sig::{TypeExprView, spec_descriptor_of};
use crate::state::HookState;

verus! {

/// Round trip: creating a hook and removing it without ever enabling it
/// succeeds and returns the registry — every region's bytes included,
/// byte for byte — to exactly its previous state.
pub proof fn lemma_create_then_remove_restores(
    v: RegistryView,
    target: u64,
    ty: TypeExprView,
    trampoline: u64,
    original: u64,
)
    requires
        spec_wf(v),
        spec_create(v, target, ty, trampoline, original).1 is Ok,
    ensures
        spec_remove(spec_create(v, target, ty, trampoline, original).0, target).1 is Ok,
        spec_remove(spec_create(v, target, ty, trampoline, original).0, target).0 == v,
{
    let v1 = spec_create(v, target, ty, trampoline, original).0;
    lemma_entry_index(v.entries, target);
    let n = v.entries.len() as int;
    assert forall|j: int| 0 <= j < n implies (#[trigger] v1.entries[j]).target != target by {
        assert(v1.entries[j] == v.entries[j]);
    }
    lemma_entry_index_is_first(v1.entries, target, n);
    assert(v1.entries[n].state == HookState::Created);
    assert(v1.entries.remove(n) =~= v.entries);
    assert(spec_remove(v1, target).0 =~= v);
}

/// Idempotent enable: enabling twice in a row has exactly the observable
/// effect of enabling once — the same final registry and the same result.
pub proof fn lemma_enable_idempotent(v: RegistryView, target: u64)
    requires
        spec_wf(v),
    ensures
        spec_enable(spec_enable(v, target).0, target).0 == spec_enable(v, target).0,
        spec_enable(spec_enable(v, target).0, target).1 == spec_enable(v, target).1,
{
    let v1 = spec_enable(v, target).0;
    let ei = entry_index(v.entries, target);
    lemma_entry_index(v.entries, target);
    if ei >= 0 {
        let e = v.entries[ei];
        if e.state != HookState::Enabled {
            let ri = region_index(v.regions, target);
            lemma_region_index(v.regions, target);
            if ri >= 0 && crate::installer::spec_apply(v.regions[ri], e.trampoline, e.captured).1
                is Ok {
                assert forall|j: int| 0 <= j < ei implies (#[trigger] v1.entries[j]).target
                    != target by {
                    assert(v1.entries[j] == v.entries[j]);
                }
                lemma_entry_index_is_first(v1.entries, target, ei);
                assert(v1.entries[ei].state == HookState::Enabled);
            }
        }
    }
}

/// Idempotent disable: disabling twice in a row has exactly the observable
/// effect of disabling once — the same final registry and the same result.
pub proof fn lemma_disable_idempotent(v: RegistryView, target: u64)
    requires
        spec_wf(v),
    ensures
        spec_disable(spec_disable(v, target).0, target).0 == spec_disable(v, target).0,
        spec_disable(spec_disable(v, target).0, target).1 == spec_disable(v, target).1,
{
    let v1 = spec_disable(v, target).0;
    let ei = entry_index(v.entries, target);
    lemma_entry_index(v.entries, target);
    if ei >= 0 {
        let e = v.entries[ei];
        if e.state == HookState::Enabled {
            let ri = region_index(v.regions, target);
            lemma_region_index(v.regions, target);
            if ri >= 0 && crate::installer::spec_revert(v.regions[ri], e.trampoline, e.captured).1
                is Ok {
                assert forall|j: int| 0 <= j < ei implies (#[trigger] v1.entries[j]).target
                    != target by {
                    assert(v1.entries[j] == v.entries[j]);
                }
                lemma_entry_index_is_first(v1.entries, target, ei);
                assert(v1.entries[ei].state == HookState::Disabled);
            }
        }
    }
}

/// Rejection: a hook request whose type yields no descriptor — variadic,
/// or not a function type — fails with `UnsupportedSignature` and installs
/// nothing: no registry entry appears and no byte changes.
pub proof fn lemma_rejected_signature_installs_nothing(
    v: RegistryView,
    target: u64,
    ty: TypeExprView,
    trampoline: u64,
    original: u64,
)
    requires
        spec_descriptor_of(ty) is None,
    ensures
        spec_create(v, target, ty, trampoline, original).0 == v,
        spec_create(v, target, ty, trampoline, original).1 == Err::<(), HookError>(
            HookError::UnsupportedSignature,
        ),
        spec_install(v, target, ty, trampoline, original).0 == v,
        spec_install(v, target, ty, trampoline, original).1 == Err::<(), HookError>(
            HookError::UnsupportedSignature,
        ),
{
}

/// Conflict: once a create has succeeded on a target, a second create on
/// the same target — even with a perfectly good signature — fails with
/// `AlreadyHooked` and leaves the registry, the first hook included,
/// untouched.
pub proof fn lemma_second_create_conflicts(
    v: RegistryView,
    target: u64,
    ty1: TypeExprView,
    trampoline1: u64,
    original1: u64,
    ty2: TypeExprView,
    trampoline2: u64,
    original2: u64,
)
    requires
        spec_wf(v),
        spec_create(v, target, ty1, trampoline1, original1).1 is Ok,
        spec_descriptor_of(ty2) is Some,
    ensures
        spec_create(
            spec_create(v, target, ty1, trampoline1, original1).0,
            target,
            ty2,
            trampoline2,
            original2,
        ).0 == spec_create(v, target, ty1, trampoline1, original1).0,
        spec_create(
            spec_create(v, target, ty1, trampoline1, original1).0,
            target,
            ty2,
            trampoline2,
            original2,
        ).1 == Err::<(), HookError>(HookError::AlreadyHooked),
{
    let v1 = spec_create(v, target, ty1, trampoline1, original1).0;
    lemma_entry_index(v.entries, target);
    let n = v.entries.len() as int;
    assert forall|j: int| 0 <= j < n implies (#[trigger] v1.entries[j]).target != target by {
        assert(v1.entries[j] == v.entries[j]);
    }
    lemma_entry_index_is_first(v1.entries, target, n);
}

/// The state invariant, read off the registry: while a hook is Enabled
/// its target's bytes begin with the redirect to its trampoline; in every
/// other live state the captured original bytes are intact at the front.
/// Either way the captured original address stays available.
pub proof fn lemma_state_determines_bytes(v: RegistryView, target: u64)
    requires
        spec_wf(v),
        entry_index(v.entries, target) >= 0,
    ensures
        region_index(v.regions, target) >= 0,
        v.entries[entry_index(v.entries, target)].state == HookState::Enabled ==> v.regions[
            region_index(v.regions, target)
        ].bytes.take(crate::patch::REDIRECT_LEN as int) == crate::patch::spec_redirect(
            v.entries[entry_index(v.entries, target)].trampoline,
        ),
        v.entries[entry_index(v.entries, target)].state != HookState::Enabled ==> v.regions[
            region_index(v.regions, target)
        ].bytes.take(crate::patch::REDIRECT_LEN as int) == v.entries[
            entry_index(v.entries, target)
        ].captured,
{
    lemma_entry_index(v.entries, target);
    assert(spec_entry_ok(v, v.entries[entry_index(v.entries, target)]));
}

/// The registry follows the lifecycle table: a successful create starts a
/// hook where the table's Create event leads from Uninitialized, and a
/// successful enable or disable moves the entry's state to where the
/// table's event leads from its previous state.
pub proof fn lemma_operations_follow_lifecycle(v: RegistryView, target: u64)
    requires
        spec_wf(v),
    ensures
        spec_enable(v, target).1 is Ok && entry_index(v.entries, target) >= 0 ==> Some(
            spec_enable(v, target).0.entries[entry_index(v.entries, target)].state,
        ) == crate::state::spec_step(
            v.entries[entry_index(v.entries, target)].state,
            crate::state::HookEvent::Enable,
        ),
        spec_disable(v, target).1 is Ok && entry_index(v.entries, target) >= 0 ==> Some(
            spec_disable(v, target).0.entries[entry_index(v.entries, target)].state,
        ) == crate::state::spec_step(
            v.entries[entry_index(v.entries, target)].state,
            crate::state::HookEvent::Disable,
        ),
{
    lemma_entry_index(v.entries, target);
    let ei = entry_index(v.entries, target);
    if ei >= 0 {
        assert(spec_entry_ok(v, v.entries[ei]));
        lemma_region_index(v.regions, target);
    }
}

/// Removal forgets the target entirely: after a successful remove no
/// entry for the target remains, so every further operation but a fresh
/// create fails with `NotInitialized` — Removed is terminal.
pub proof fn lemma_remove_is_terminal(v: RegistryView, target: u64)
    requires
        spec_wf(v),
        spec_remove(v, target).1 is Ok,
    ensures
        entry_index(spec_remove(v, target).0.entries, target) == -1,
        spec_enable(spec_remove(v, target).0, target).1 == Err::<(), HookError>(
            HookError::NotInitialized,
        ),
        spec_disable(spec_remove(v, target).0, target).1 == Err::<(), HookError>(
            HookError::NotInitialized,
        ),
        spec_remove(spec_remove(v, target).0, target).1 == Err::<(), HookError>(
            HookError::NotInitialized,
        ),
{
    let ei = entry_index(v.entries, target);
    lemma_entry_index(v.entries, target);
    let v2 = spec_remove(v, target).0;
    assert forall|j: int| 0 <= j < v2.entries.len() implies (#[trigger] v2.entries[j]).target
        != target by {
        assert(v2.entries[j] == if j < ei {
            v.entries[j]
        } else {
            v.entries[j + 1]
        });
    }
    lemma_entry_index(v2.entries, target);
    if entry_index(v2.entries, target) >= 0 {
        assert(v2.entries[entry_index(v2.entries, target)].target == target);
    }
}

/// Enable then disable is a byte-exact round trip: on a hook that is not
/// yet Enabled, a successful enable followed by disable succeeds and
/// leaves every region — the patched target included — byte for byte as
/// it was, with only the entry's state moved to Disabled.
pub proof fn lemma_enable_then_disable_restores_bytes(v: RegistryView, target: u64)
    requires
        spec_wf(v),
        entry_index(v.entries, target) >= 0,
        v.entries[entry_index(v.entries, target)].state != HookState::Enabled,
        spec_enable(v, target).1 is Ok,
    ensures
        spec_disable(spec_enable(v, target).0, target).1 is Ok,
        spec_disable(spec_enable(v, target).0, target).0.regions == v.regions,
        spec_disable(spec_enable(v, target).0, target).0.entries == v.entries.update(
            entry_index(v.entries, target),
            crate::registry::EntryView {
                state: HookState::Disabled,
                ..v.entries[entry_index(v.entries, target)]
            },
        ),
{
    let ei = entry_index(v.entries, target);
    let ri = region_index(v.regions, target);
    lemma_entry_index(v.entries, target);
    lemma_region_index(v.regions, target);
    let e = v.entries[ei];
    assert(spec_entry_ok(v, e));
    let v1 = spec_enable(v, target).0;
    assert forall|j: int| 0 <= j < ei implies (#[trigger] v1.entries[j]).target != target by {
        assert(v1.entries[j] == v.entries[j]);
    }
    lemma_entry_index_is_first(v1.entries, target, ei);
    assert forall|j: int| 0 <= j < ri implies (#[trigger] v1.regions[j]).base != target by {
        assert(v1.regions[j] == v.regions[j]);
    }
    crate::registry::lemma_region_index_is_first(v1.regions, target, ri);
    let patched = v1.regions[ri];
    assert(patched.bytes =~= crate::patch::spec_redirect(e.trampoline) + v.regions[ri].bytes.skip(
        crate::patch::REDIRECT_LEN as int,
    ));
    assert(patched.bytes.take(crate::patch::REDIRECT_LEN as int) =~= crate::patch::spec_redirect(
        e.trampoline,
    ));
    let step = crate::installer::spec_revert(patched, e.trampoline, e.captured);
    assert(step.1 is Ok);
    assert(step.0.bytes =~= e.captured + patched.bytes.skip(crate::patch::REDIRECT_LEN as int));
    assert(step.0.bytes =~= v.regions[ri].bytes);
    assert(step.0 =~= v.regions[ri]);
    let v2 = spec_disable(v1, target).0;
    assert(v2.regions =~= v.regions);
    assert(v2.entries =~= v.entries.update(
        ei,
        crate::registry::EntryView { state: HookState::Disabled, ..e },
    ));
}

/// Sequences with pointwise equal targets agree on every `entry_index`.
proof fn lemma_entry_index_same_targets(
    s1: Seq<crate::registry::EntryView>,
    s2: Seq<crate::registry::EntryView>,
    t: u64,
)
    requires
        s1.len() == s2.len(),
        forall|j: int| 0 <= j < s1.len() ==> (#[trigger] s1[j]).target == (#[trigger] s2[j]).target,
    ensures
        entry_index(s2, t) == entry_index(s1, t),
{
    lemma_entry_index(s1, t);
    lemma_entry_index(s2, t);
    let e1 = entry_index(s1, t);
    let e2 = entry_index(s2, t);
    if e1 >= 0 {
        lemma_entry_index_is_first(s2, t, e1);
    } else if e2 >= 0 {
        assert(s1[e2].target == t);
    }
}

/// Sequences with pointwise equal bases agree on every `region_index`.
proof fn lemma_region_index_same_bases(
    s1: Seq<crate::installer::RegionView>,
    s2: Seq<crate::installer::RegionView>,
    t: u64,
)
    requires
        s1.len() == s2.len(),
        forall|j: int| 0 <= j < s1.len() ==> (#[trigger] s1[j]).base == (#[trigger] s2[j]).base,
    ensures
        region_index(s2, t) == region_index(s1, t),
{
    lemma_region_index(s1, t);
    lemma_region_index(s2, t);
    let e1 = region_index(s1, t);
    let e2 = region_index(s2, t);
    if e1 >= 0 {
        assert(s2[e1].base == s1[e1].base);
        assert forall|j: int| 0 <= j < e1 implies (#[trigger] s2[j]).base != t by {
            assert(s1[j].base != t);
        }
        crate::registry::lemma_region_index_is_first(s2, t, e1);
    } else if e2 >= 0 {
        assert(s1[e2].base == t);
    }
}

/// One enable or disable, chosen by flag: the operations P7 interleaves.
pub open spec fn spec_toggle(v: RegistryView, t: u64, enable: bool) -> (
    RegistryView,
    Result<(), HookError>,
) {
    if enable {
        spec_enable(v, t)
    } else {
        spec_disable(v, t)
    }
}

/// Enable and disable touch only the slots keyed by their own target:
/// every length, every target, every base is preserved, and every entry
/// and region keyed by another address is untouched.
proof fn lemma_toggle_frame(v: RegistryView, t: u64, en: bool)
    ensures
        spec_toggle(v, t, en).0.entries.len() == v.entries.len(),
        spec_toggle(v, t, en).0.regions.len() == v.regions.len(),
        forall|j: int|
            0 <= j < v.entries.len() ==> (#[trigger] spec_toggle(v, t, en).0.entries[j]).target
                == (#[trigger] v.entries[j]).target,
        forall|j: int|
            0 <= j < v.regions.len() ==> (#[trigger] spec_toggle(v, t, en).0.regions[j]).base == (
            #[trigger] v.regions[j]).base,
        forall|j: int|
            0 <= j < v.entries.len() && (#[trigger] v.entries[j]).target != t
                ==> spec_toggle(v, t, en).0.entries[j] == v.entries[j],
        forall|j: int|
            0 <= j < v.regions.len() && (#[trigger] v.regions[j]).base != t ==> spec_toggle(
                v,
                t,
                en,
            ).0.regions[j] == v.regions[j],
{
    lemma_entry_index(v.entries, t);
    lemma_region_index(v.regions, t);
}

/// Enable and disable read only the slots keyed by their own target: on
/// two registries that agree on the entry and region for `t`, the same
/// toggle yields the same result and writes the same new slot values.
proof fn lemma_toggle_agrees(v: RegistryView, w: RegistryView, t: u64, en: bool)
    requires
        entry_index(w.entries, t) == entry_index(v.entries, t),
        entry_index(v.entries, t) >= 0 ==> w.entries[entry_index(v.entries, t)] == v.entries[
            entry_index(v.entries, t)
        ],
        region_index(w.regions, t) == region_index(v.regions, t),
        region_index(v.regions, t) >= 0 ==> w.regions[region_index(v.regions, t)] == v.regions[
            region_index(v.regions, t)
        ],
    ensures
        spec_toggle(w, t, en).1 == spec_toggle(v, t, en).1,
        spec_toggle(w, t, en).0.entries.len() == w.entries.len(),
        spec_toggle(w, t, en).0.regions.len() == w.regions.len(),
        forall|j: int|
            0 <= j < w.entries.len() && j != entry_index(v.entries, t) ==> (#[trigger] spec_toggle(
                w,
                t,
                en,
            ).0.entries[j]) == w.entries[j],
        forall|j: int|
            0 <= j < w.regions.len() && j != region_index(v.regions, t) ==> (#[trigger] spec_toggle(
                w,
                t,
                en,
            ).0.regions[j]) == w.regions[j],
        entry_index(v.entries, t) >= 0 && entry_index(v.entries, t) < w.entries.len()
            ==> spec_toggle(w, t, en).0.entries[entry_index(v.entries, t)] == spec_toggle(
            v,
            t,
            en,
        ).0.entries[entry_index(v.entries, t)],
        region_index(v.regions, t) >= 0 && region_index(v.regions, t) < w.regions.len()
            ==> spec_toggle(w, t, en).0.regions[region_index(v.regions, t)] == spec_toggle(
            v,
            t,
            en,
        ).0.regions[region_index(v.regions, t)],
{
    lemma_entry_index(v.entries, t);
    lemma_region_index(v.regions, t);
    lemma_entry_index(w.entries, t);
    lemma_region_index(w.regions, t);
}

/// Concurrent safety across targets: enable and disable operations on two
/// different target addresses commute — whichever serial order a pair of
/// racing threads resolves to, the registry ends in the same state, and
/// each operation returns what it would have returned alone. Together
/// with the registry invariant every operation maintains, no interleaving
/// can surface a torn or inconsistent state; operations on one and the
/// same entry are serialized by exclusive access to the registry.
pub proof fn lemma_distinct_targets_commute(
    v: RegistryView,
    a: u64,
    b: u64,
    op_a: bool,
    op_b: bool,
)
    requires
        spec_wf(v),
        a != b,
    ensures
        spec_toggle(spec_toggle(v, a, op_a).0, b, op_b).0 == spec_toggle(
            spec_toggle(v, b, op_b).0,
            a,
            op_a,
        ).0,
        spec_toggle(spec_toggle(v, a, op_a).0, b, op_b).1 == spec_toggle(v, b, op_b).1,
        spec_toggle(spec_toggle(v, b, op_b).0, a, op_a).1 == spec_toggle(v, a, op_a).1,
{
    let va = spec_toggle(v, a, op_a).0;
    let vb = spec_toggle(v, b, op_b).0;
    let ea = entry_index(v.entries, a);
    let eb = entry_index(v.entries, b);
    let ra = region_index(v.regions, a);
    let rb = region_index(v.regions, b);
    lemma_entry_index(v.entries, a);
    lemma_entry_index(v.entries, b);
    lemma_region_index(v.regions, a);
    lemma_region_index(v.regions, b);
    lemma_toggle_frame(v, a, op_a);
    lemma_toggle_frame(v, b, op_b);
    lemma_entry_index_same_targets(v.entries, va.entries, b);
    lemma_entry_index_same_targets(v.entries, vb.entries, a);
    lemma_region_index_same_bases(v.regions, va.regions, b);
    lemma_region_index_same_bases(v.regions, vb.regions, a);
    lemma_toggle_agrees(v, va, b, op_b);
    lemma_toggle_agrees(v, vb, a, op_a);
    let l = spec_toggle(va, b, op_b).0;
    let r = spec_toggle(vb, a, op_a).0;
    assert(ea != eb || ea < 0 || eb < 0);
    assert(ra != rb || ra < 0 || rb < 0);
    assert forall|j: int| 0 <= j < l.entries.len() implies l.entries[j] == r.entries[j] by {
        if j == ea && ea >= 0 {
            assert(l.entries[j] == va.entries[j]);
            assert(r.entries[j] == spec_toggle(v, a, op_a).0.entries[j]);
        } else if j == eb && eb >= 0 {
            assert(l.entries[j] == spec_toggle(v, b, op_b).0.entries[j]);
            assert(r.entries[j] == vb.entries[j]);
        } else {
            assert(l.entries[j] == va.entries[j] && va.entries[j] == v.entries[j]);
            assert(r.entries[j] == vb.entries[j] && vb.entries[j] == v.entries[j]);
        }
    }
    assert forall|j: int| 0 <= j < l.regions.len() implies l.regions[j] == r.regions[j] by {
        if j == ra && ra >= 0 {
            assert(l.regions[j] == va.regions[j]);
            assert(r.regions[j] == spec_toggle(v, a, op_a).0.regions[j]);
        } else if j == rb && rb >= 0 {
            assert(l.regions[j] == spec_toggle(v, b, op_b).0.regions[j]);
            assert(r.regions[j] == vb.regions[j]);
        } else {
            assert(l.regions[j] == va.regions[j] && va.regions[j] == v.regions[j]);
            assert(r.regions[j] == vb.regions[j] && vb.regions[j] == v.regions[j]);
        }
    }
    assert(l.entries =~= r.entries);
    assert(l.regions =~= r.regions);
    assert(l =~= r);
}

} // verus!
