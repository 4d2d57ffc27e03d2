//! The trampoline generator: from a signature descriptor it synthesizes a
//! shim template whose call interface matches the target's bit for bit —
//! same calling convention, same safety qualifier, same argument kinds in
//! the same order, same return kind — and whose body does nothing but
//! forward every received argument, in order, to the dispatch adapter.
//!
//! Arguments carry synthetic positional names (their index) so no name can
//! collide with a user identifier. The platform layer that materializes a
//! template as executable code must place it at a stable, non-inlinable
//! address, which the registry then records.

use vstd::prelude::*;
use crate::errors::HookError;
use crate::sig::{CallConv, SignatureDescriptor, TypeExpr, ValueKind, spec_descriptor_of};

verus! {

/// One parameter of the shim: its synthetic positional name (the index)
/// and the argument kind it receives.
#[derive(Clone, Copy, Debug, PartialEq, Eq, Structural)]
pub struct ParamSlot {
    pub index: usize,
    pub ty: ValueKind,
}

/// A shim template: the call interface it exposes and the order in which
/// its body hands the received arguments to the dispatch adapter.
pub struct Trampoline {
    pub convention: CallConv,
    pub is_unsafe: bool,
    pub ret: ValueKind,
    /// The shim's parameters, positionally named.
    pub params: Vec<ParamSlot>,
    /// Which received argument each forwarded slot carries; forwarding must
    /// not reorder, duplicate or drop an argument.
    pub forwards: Vec<usize>,
}

/// A template is faithful to a descriptor when its interface equals the
/// described one and its body forwards argument `i` in slot `i`.
pub open spec fn spec_faithful(t: Trampoline, d: SignatureDescriptor) -> bool {
    &&& t.convention == d.convention
    &&& t.is_unsafe == d.is_unsafe
    &&& t.ret == d.ret
    &&& t.params@.len() == d.args@.len()
    &&& forall|i: int|
        0 <= i < t.params@.len() ==> (#[trigger] t.params@[i]).index as int == i
            && t.params@[i].ty == d.args@[i]
    &&& t.forwards@.len() == d.args@.len()
    &&& forall|i: int| 0 <= i < t.forwards@.len() ==> (#[trigger] t.forwards@[i]) as int == i
}

/// Synthesizes the shim template for a descriptor. The result's interface
/// is the descriptor's, unchanged, and its forwarding list is the identity
/// over the argument positions: argument order and count are preserved
/// exactly, and no marshaling beyond the native argument passing occurs.
pub fn generate(d: &SignatureDescriptor) -> (t: Trampoline)
    ensures
        spec_faithful(t, *d),
{
    let n = d.args.len();
    let mut params: Vec<ParamSlot> = Vec::new();
    let mut forwards: Vec<usize> = Vec::new();
    let mut i: usize = 0;
    while i < n
        invariant
            i <= n,
            n == d.args@.len(),
            params@.len() == i,
            forwards@.len() == i,
            forall|j: int|
                0 <= j < i ==> (#[trigger] params@[j]).index as int == j && params@[j].ty
                    == d.args@[j],
            forall|j: int| 0 <= j < i ==> (#[trigger] forwards@[j]) as int == j,
        decreases n - i,
    {
        let kind = d.args[i];
        params.push(ParamSlot { index: i, ty: kind });
        forwards.push(i);
        i += 1;
    }
    Trampoline { convention: d.convention, is_unsafe: d.is_unsafe, ret: d.ret, params, forwards }
}

/// The front half of a hook request: builds the signature descriptor for
/// the target's type — rejecting variadic and non-function types with
/// `UnsupportedSignature` — and synthesizes the faithful shim template for
/// it. What remains is the platform's (materializing the template at a
/// stable address) and the registry's (create and enable).
pub fn prepare(ty: &TypeExpr) -> (r: Result<(SignatureDescriptor, Trampoline), HookError>)
    ensures
        match r {
            Ok(p) => spec_descriptor_of(ty@) == Some(p.0@) && spec_faithful(p.1, p.0),
            Err(e) => spec_descriptor_of(ty@) is None && e == HookError::UnsupportedSignature,
        },
{
    match SignatureDescriptor::from_type(ty) {
        Err(e) => Err(e),
        Ok(descriptor) => {
            let template = generate(&descriptor);
            Ok((descriptor, template))
        },
    }
}

/// Forwarding is the identity permutation: mapping any argument list of the
/// descriptor's arity through the forwarding list returns it unchanged.
pub proof fn lemma_forwarding_preserves_arguments(t: Trampoline, d: SignatureDescriptor, args: Seq<u64>)
    requires
        spec_faithful(t, d),
        args.len() == d.args@.len(),
    ensures
        Seq::new(t.forwards@.len() as nat, |i: int| args[t.forwards@[i] as int]) == args,
{
    assert forall|i: int| 0 <= i < t.forwards@.len() implies args[t.forwards@[i] as int]
        == args[i] by {
        assert(t.forwards@[i] as int == i);
    }
    assert(Seq::new(t.forwards@.len() as nat, |i: int| args[t.forwards@[i] as int]) =~= args);
}

} // verus!
