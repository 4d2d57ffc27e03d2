//! The redirect sequence the installer writes over a target's prologue: a
//! jump opcode followed by the trampoline address in little-endian order.
//! The sequence determines the trampoline address uniquely, so a patched
//! prologue can always be checked against the entry that claims it.

use vstd::prelude::*;

verus! {

/// Number of bytes the installed redirect occupies: one opcode byte plus an
/// eight-byte little-endian address.
pub const REDIRECT_LEN: usize = 9;

/// The opcode byte that starts every installed redirect.
pub const JUMP_OPCODE: u8 = 0xE9;

/// Byte `i` of the little-endian encoding of `x`.
pub open spec fn spec_le_byte(x: u64, i: int) -> u8 {
    ((x >> ((8 * i) as u64)) & 0xff) as u8
}

/// The full redirect sequence for a trampoline address.
pub open spec fn spec_redirect(trampoline: u64) -> Seq<u8> {
    seq![JUMP_OPCODE].add(Seq::new(8, |i: int| spec_le_byte(trampoline, i)))
}

/// A prologue `p` written over the front of `b` (which must be at least as
/// long as `p`), leaving the tail unchanged.
pub open spec fn spec_overwrite_prefix(b: Seq<u8>, p: Seq<u8>) -> Seq<u8> {
    p.add(b.skip(p.len() as int))
}

/// Builds the redirect sequence for a trampoline address.
pub fn encode_redirect(trampoline: u64) -> (r: Vec<u8>)
    ensures
        r@ == spec_redirect(trampoline),
        r@.len() == REDIRECT_LEN,
{
    let mut r: Vec<u8> = Vec::new();
    r.push(JUMP_OPCODE);
    let mut i: usize = 0;
    while i < 8
        invariant
            i <= 8,
            r@.len() == i + 1,
            r@[0] == JUMP_OPCODE,
            forall|j: int| 0 <= j < i ==> r@[j + 1] == spec_le_byte(trampoline, j),
        decreases 8 - i,
    {
        let shift: u64 = (8 * i) as u64;
        let masked: u64 = (trampoline >> shift) & 0xff;
        proof {
            assert((trampoline >> shift) & 0xff < 256) by (bit_vector);
        }
        r.push(masked as u8);
        i += 1;
    }
    proof {
        assert(r@ =~= spec_redirect(trampoline));
    }
    r
}

/// Two redirect sequences agree only for one and the same trampoline
/// address: the eight little-endian bytes determine it.
pub proof fn lemma_redirect_injective(a: u64, b: u64)
    requires
        spec_redirect(a) == spec_redirect(b),
    ensures
        a == b,
{
    assert forall|i: int| 0 <= i < 8 implies spec_le_byte(a, i) == spec_le_byte(b, i) by {
        assert(spec_redirect(a)[i + 1] == spec_le_byte(a, i));
        assert(spec_redirect(b)[i + 1] == spec_le_byte(b, i));
    }
    assert(spec_le_byte(a, 0) == spec_le_byte(b, 0));
    assert(spec_le_byte(a, 1) == spec_le_byte(b, 1));
    assert(spec_le_byte(a, 2) == spec_le_byte(b, 2));
    assert(spec_le_byte(a, 3) == spec_le_byte(b, 3));
    assert(spec_le_byte(a, 4) == spec_le_byte(b, 4));
    assert(spec_le_byte(a, 5) == spec_le_byte(b, 5));
    assert(spec_le_byte(a, 6) == spec_le_byte(b, 6));
    assert(spec_le_byte(a, 7) == spec_le_byte(b, 7));
    assert((((a >> 0u64) & 0xff) as u8 == ((b >> 0u64) & 0xff) as u8 && ((a >> 8u64) & 0xff) as u8
        == ((b >> 8u64) & 0xff) as u8 && ((a >> 16u64) & 0xff) as u8 == ((b >> 16u64) & 0xff) as u8
        && ((a >> 24u64) & 0xff) as u8 == ((b >> 24u64) & 0xff) as u8 && ((a >> 32u64) & 0xff)
        as u8 == ((b >> 32u64) & 0xff) as u8 && ((a >> 40u64) & 0xff) as u8 == ((b >> 40u64)
        & 0xff) as u8 && ((a >> 48u64) & 0xff) as u8 == ((b >> 48u64) & 0xff) as u8 && ((a
        >> 56u64) & 0xff) as u8 == ((b >> 56u64) & 0xff) as u8) ==> a == b) by (bit_vector);
}

} // verus!
