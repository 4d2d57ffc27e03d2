use hook_engine::errors::HookError;
use hook_engine::installer::{Region, apply_redirect, capture_prologue, revert_redirect};
use hook_engine::patch::{JUMP_OPCODE, REDIRECT_LEN, encode_redirect};
use hook_engine::sig::{CallConv, FnShape, SignatureDescriptor, TypeExpr, ValueKind};
use hook_engine::state::step;
use hook_engine::state::HookEvent::{Create, Disable, Enable, Remove};
use hook_engine::state::HookState::{Created, Disabled, Enabled, Removed, Uninitialized};
use hook_engine::trampoline::{generate, prepare};

fn shape() -> FnShape {
    FnShape {
        convention: CallConv::Stdcall,
        is_unsafe: true,
        variadic: false,
        args: vec![ValueKind::Pointer, ValueKind::UInt32, ValueKind::Bool],
        ret: ValueKind::UInt64,
    }
}

#[test]
fn descriptor_extracts_the_interface_verbatim() {
    let d = SignatureDescriptor::from_type(&TypeExpr::Function(shape())).unwrap();
    assert_eq!(d.convention, CallConv::Stdcall);
    assert!(d.is_unsafe);
    assert_eq!(d.args, vec![ValueKind::Pointer, ValueKind::UInt32, ValueKind::Bool]);
    assert_eq!(d.ret, ValueKind::UInt64);
    assert_eq!(d.arity(), 3);
}

#[test]
fn descriptor_rejects_variadic_and_data_types() {
    let mut s = shape();
    s.variadic = true;
    assert!(matches!(
        SignatureDescriptor::from_type(&TypeExpr::Function(s)),
        Err(HookError::UnsupportedSignature)
    ));
    assert!(matches!(
        SignatureDescriptor::from_type(&TypeExpr::Data(ValueKind::Unit)),
        Err(HookError::UnsupportedSignature)
    ));
}

#[test]
fn trampoline_matches_descriptor_and_forwards_in_order() {
    let d = SignatureDescriptor::from_type(&TypeExpr::Function(shape())).unwrap();
    let t = generate(&d);
    assert_eq!(t.convention, d.convention);
    assert_eq!(t.is_unsafe, d.is_unsafe);
    assert_eq!(t.ret, d.ret);
    assert_eq!(t.params.len(), 3);
    for (i, p) in t.params.iter().enumerate() {
        assert_eq!(p.index, i);
        assert_eq!(p.ty, d.args[i]);
    }
    assert_eq!(t.forwards, vec![0, 1, 2]);
}

#[test]
fn trampoline_for_a_nullary_signature_is_empty() {
    let d = SignatureDescriptor::from_type(&TypeExpr::Function(FnShape {
        convention: CallConv::Rust,
        is_unsafe: false,
        variadic: false,
        args: Vec::new(),
        ret: ValueKind::Unit,
    }))
    .unwrap();
    let t = generate(&d);
    assert!(t.params.is_empty());
    assert!(t.forwards.is_empty());
}

#[test]
fn redirect_encoding_is_opcode_plus_little_endian_address() {
    let r = encode_redirect(0x0102030405060708);
    assert_eq!(r.len(), REDIRECT_LEN);
    assert_eq!(r, vec![JUMP_OPCODE, 0x08, 0x07, 0x06, 0x05, 0x04, 0x03, 0x02, 0x01]);
    let zero = encode_redirect(0);
    assert_eq!(zero, vec![JUMP_OPCODE, 0, 0, 0, 0, 0, 0, 0, 0]);
    assert_ne!(encode_redirect(1), encode_redirect(2));
}

#[test]
fn prepare_yields_descriptor_and_matching_template() {
    let (d, t) = prepare(&TypeExpr::Function(shape())).unwrap();
    assert_eq!(d.arity(), 3);
    assert_eq!(t.params.len(), 3);
    assert_eq!(t.convention, d.convention);
    let mut s = shape();
    s.variadic = true;
    assert!(matches!(
        prepare(&TypeExpr::Function(s)),
        Err(HookError::UnsupportedSignature)
    ));
}

#[test]
fn lifecycle_table_transitions() {
    assert_eq!(step(Uninitialized, Create), Some(Created));
    assert_eq!(step(Created, Enable), Some(Enabled));
    assert_eq!(step(Enabled, Enable), Some(Enabled));
    assert_eq!(step(Enabled, Disable), Some(Disabled));
    assert_eq!(step(Disabled, Enable), Some(Enabled));
    assert_eq!(step(Disabled, Disable), Some(Disabled));
    assert_eq!(step(Created, Remove), Some(Removed));
    assert_eq!(step(Enabled, Remove), Some(Removed));
    assert_eq!(step(Removed, Enable), None);
    assert_eq!(step(Removed, Disable), None);
    assert_eq!(step(Removed, Remove), None);
    assert_eq!(step(Created, Create), None);
}

#[test]
fn capture_takes_exactly_the_prologue() {
    let region =
        Region { base: 0x4000, bytes: (0..16).collect(), executable: true, protect_allowed: true };
    let p = capture_prologue(&region).unwrap();
    assert_eq!(p, (0..REDIRECT_LEN as u8).collect::<Vec<u8>>());
}

#[test]
fn installer_detects_concurrent_modification() {
    // The bytes no longer read as they did at capture: another agent
    // wrote them, and the verification read refuses to patch over that.
    let mut region =
        Region { base: 0x4000, bytes: (0..16).collect(), executable: true, protect_allowed: true };
    let captured = capture_prologue(&region).unwrap();
    region.bytes[0] = 0xcc;
    assert_eq!(
        apply_redirect(&mut region, 0x9000, &captured),
        Err(HookError::ConcurrentModification)
    );
    assert_eq!(region.bytes[0], 0xcc);
    // Reverting bytes that do not hold this entry's redirect is refused
    // the same way.
    assert_eq!(
        revert_redirect(&mut region, 0x9000, &captured),
        Err(HookError::ConcurrentModification)
    );
}

#[test]
fn installer_apply_then_revert_restores() {
    let mut region =
        Region { base: 0x4000, bytes: (0..16).collect(), executable: true, protect_allowed: true };
    let captured = capture_prologue(&region).unwrap();
    assert_eq!(apply_redirect(&mut region, 0x9000, &captured), Ok(()));
    assert_eq!(region.bytes[..REDIRECT_LEN], encode_redirect(0x9000)[..]);
    assert_eq!(revert_redirect(&mut region, 0x9000, &captured), Ok(()));
    assert_eq!(region.bytes, (0..16).collect::<Vec<u8>>());
}

#[test]
fn every_error_describes_itself() {
    let errors = [
        HookError::UnsupportedSignature,
        HookError::AlreadyHooked,
        HookError::NotInitialized,
        HookError::UnsupportedInstruction,
        HookError::MemoryProtectionDenied,
        HookError::ConcurrentModification,
    ];
    for e in errors {
        assert!(!e.describe().is_empty());
    }
    assert_ne!(
        HookError::AlreadyHooked.describe(),
        HookError::NotInitialized.describe()
    );
}
