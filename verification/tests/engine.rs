use hook_engine::errors::HookError;
use hook_engine::installer::Region;
use hook_engine::patch::{JUMP_OPCODE, REDIRECT_LEN, encode_redirect};
use hook_engine::registry::Registry;
use hook_engine::sig::{CallConv, FnShape, TypeExpr, ValueKind};
use hook_engine::state::HookState;

fn sample_bytes() -> Vec<u8> {
    vec![
        0x55, 0x48, 0x89, 0xe5, 0x48, 0x83, 0xec, 0x10, 0x89, 0x7d, 0xfc, 0x89, 0x75, 0xf8, 0x5d,
        0xc3,
    ]
}

fn sample_region(base: u64) -> Region {
    Region { base, bytes: sample_bytes(), executable: true, protect_allowed: true }
}

fn int_pair_fn_type() -> TypeExpr {
    TypeExpr::Function(FnShape {
        convention: CallConv::C,
        is_unsafe: false,
        variadic: false,
        args: vec![ValueKind::Int32, ValueKind::Int32],
        ret: ValueKind::Int32,
    })
}

fn variadic_fn_type() -> TypeExpr {
    TypeExpr::Function(FnShape {
        convention: CallConv::C,
        is_unsafe: true,
        variadic: true,
        args: vec![ValueKind::Pointer],
        ret: ValueKind::Int32,
    })
}

#[test]
fn create_then_remove_is_a_byte_exact_round_trip() {
    let mut reg = Registry::new();
    assert!(reg.add_region(sample_region(0x4000)));
    let before = reg.region_bytes(0x4000).unwrap();
    assert_eq!(reg.create(0x4000, &int_pair_fn_type(), 0x9000, 0x9100), Ok(()));
    assert_eq!(reg.state_of(0x4000), Some(HookState::Created));
    assert_eq!(reg.remove(0x4000), Ok(()));
    let after = reg.region_bytes(0x4000).unwrap();
    assert_eq!(before, after);
    assert_eq!(reg.state_of(0x4000), None);
    assert_eq!(reg.hook_count(), 0);
}

#[test]
fn create_writes_no_byte() {
    let mut reg = Registry::new();
    assert!(reg.add_region(sample_region(0x4000)));
    let before = reg.region_bytes(0x4000).unwrap();
    assert_eq!(reg.create(0x4000, &int_pair_fn_type(), 0x9000, 0x9100), Ok(()));
    assert_eq!(reg.region_bytes(0x4000).unwrap(), before);
}

#[test]
fn enable_installs_the_redirect_sequence() {
    let mut reg = Registry::new();
    assert!(reg.add_region(sample_region(0x4000)));
    assert_eq!(reg.install_hook(0x4000, &int_pair_fn_type(), 0x1122334455667788, 0x9100), Ok(()));
    assert_eq!(reg.state_of(0x4000), Some(HookState::Enabled));
    let bytes = reg.region_bytes(0x4000).unwrap();
    let redirect = encode_redirect(0x1122334455667788);
    assert_eq!(redirect.len(), REDIRECT_LEN);
    assert_eq!(bytes[..REDIRECT_LEN], redirect[..]);
    assert_eq!(bytes[0], JUMP_OPCODE);
    assert_eq!(bytes[1], 0x88);
    assert_eq!(bytes[8], 0x11);
    // The tail beyond the redirect is untouched.
    assert_eq!(bytes[REDIRECT_LEN..], sample_bytes()[REDIRECT_LEN..]);
}

#[test]
fn enable_twice_equals_enable_once() {
    let mut reg = Registry::new();
    assert!(reg.add_region(sample_region(0x4000)));
    assert_eq!(reg.install_hook(0x4000, &int_pair_fn_type(), 0x9000, 0x9100), Ok(()));
    let once = reg.region_bytes(0x4000).unwrap();
    assert_eq!(reg.enable(0x4000), Ok(()));
    assert_eq!(reg.region_bytes(0x4000).unwrap(), once);
    assert_eq!(reg.state_of(0x4000), Some(HookState::Enabled));
}

#[test]
fn disable_twice_equals_disable_once() {
    let mut reg = Registry::new();
    assert!(reg.add_region(sample_region(0x4000)));
    assert_eq!(reg.install_hook(0x4000, &int_pair_fn_type(), 0x9000, 0x9100), Ok(()));
    assert_eq!(reg.disable(0x4000), Ok(()));
    let once = reg.region_bytes(0x4000).unwrap();
    assert_eq!(once, sample_bytes());
    assert_eq!(reg.disable(0x4000), Ok(()));
    assert_eq!(reg.region_bytes(0x4000).unwrap(), once);
    assert_eq!(reg.state_of(0x4000), Some(HookState::Disabled));
}

#[test]
fn disable_restores_and_reenable_repatches() {
    let mut reg = Registry::new();
    assert!(reg.add_region(sample_region(0x4000)));
    assert_eq!(reg.install_hook(0x4000, &int_pair_fn_type(), 0x9000, 0x9100), Ok(()));
    let patched = reg.region_bytes(0x4000).unwrap();
    assert_eq!(reg.disable(0x4000), Ok(()));
    assert_eq!(reg.region_bytes(0x4000).unwrap(), sample_bytes());
    assert_eq!(reg.enable(0x4000), Ok(()));
    assert_eq!(reg.region_bytes(0x4000).unwrap(), patched);
}

#[test]
fn variadic_signature_is_rejected_and_installs_nothing() {
    let mut reg = Registry::new();
    assert!(reg.add_region(sample_region(0x4000)));
    let before = reg.region_bytes(0x4000).unwrap();
    assert_eq!(
        reg.create(0x4000, &variadic_fn_type(), 0x9000, 0x9100),
        Err(HookError::UnsupportedSignature)
    );
    assert_eq!(
        reg.install_hook(0x4000, &variadic_fn_type(), 0x9000, 0x9100),
        Err(HookError::UnsupportedSignature)
    );
    assert_eq!(reg.region_bytes(0x4000).unwrap(), before);
    assert_eq!(reg.state_of(0x4000), None);
    assert_eq!(reg.hook_count(), 0);
}

#[test]
fn non_function_type_is_rejected() {
    let mut reg = Registry::new();
    assert!(reg.add_region(sample_region(0x4000)));
    assert_eq!(
        reg.create(0x4000, &TypeExpr::Data(ValueKind::Int64), 0x9000, 0x9100),
        Err(HookError::UnsupportedSignature)
    );
    assert_eq!(reg.hook_count(), 0);
}

#[test]
fn second_create_on_same_target_conflicts() {
    let mut reg = Registry::new();
    assert!(reg.add_region(sample_region(0x4000)));
    assert_eq!(reg.create(0x4000, &int_pair_fn_type(), 0x9000, 0x9100), Ok(()));
    assert_eq!(
        reg.create(0x4000, &int_pair_fn_type(), 0xa000, 0xa100),
        Err(HookError::AlreadyHooked)
    );
    // The first hook is unaffected.
    assert_eq!(reg.state_of(0x4000), Some(HookState::Created));
    assert_eq!(reg.original_address(0x4000), Some(0x9100));
    assert_eq!(reg.hook_count(), 1);
}

#[test]
fn operations_before_create_fail_with_not_initialized() {
    let mut reg = Registry::new();
    assert!(reg.add_region(sample_region(0x4000)));
    assert_eq!(reg.enable(0x4000), Err(HookError::NotInitialized));
    assert_eq!(reg.disable(0x4000), Err(HookError::NotInitialized));
    assert_eq!(reg.remove(0x4000), Err(HookError::NotInitialized));
}

#[test]
fn removed_is_terminal_until_a_fresh_create() {
    let mut reg = Registry::new();
    assert!(reg.add_region(sample_region(0x4000)));
    assert_eq!(reg.install_hook(0x4000, &int_pair_fn_type(), 0x9000, 0x9100), Ok(()));
    assert_eq!(reg.remove(0x4000), Ok(()));
    assert_eq!(reg.region_bytes(0x4000).unwrap(), sample_bytes());
    assert_eq!(reg.enable(0x4000), Err(HookError::NotInitialized));
    assert_eq!(reg.disable(0x4000), Err(HookError::NotInitialized));
    assert_eq!(reg.remove(0x4000), Err(HookError::NotInitialized));
    // Re-creation under a fresh entry is the one way onward.
    assert_eq!(reg.create(0x4000, &int_pair_fn_type(), 0xb000, 0xb100), Ok(()));
    assert_eq!(reg.state_of(0x4000), Some(HookState::Created));
    assert_eq!(reg.original_address(0x4000), Some(0xb100));
}

#[test]
fn unknown_target_cannot_be_created() {
    let mut reg = Registry::new();
    assert_eq!(
        reg.create(0x4000, &int_pair_fn_type(), 0x9000, 0x9100),
        Err(HookError::UnsupportedInstruction)
    );
}

#[test]
fn short_prologue_cannot_be_intercepted() {
    let mut reg = Registry::new();
    let region = Region {
        base: 0x4000,
        bytes: vec![0xc3, 0x90, 0x90, 0x90],
        executable: true,
        protect_allowed: true,
    };
    assert!(reg.add_region(region));
    assert_eq!(
        reg.create(0x4000, &int_pair_fn_type(), 0x9000, 0x9100),
        Err(HookError::UnsupportedInstruction)
    );
}

#[test]
fn non_executable_region_cannot_be_intercepted() {
    let mut reg = Registry::new();
    let region =
        Region { base: 0x4000, bytes: sample_bytes(), executable: false, protect_allowed: true };
    assert!(reg.add_region(region));
    assert_eq!(
        reg.create(0x4000, &int_pair_fn_type(), 0x9000, 0x9100),
        Err(HookError::UnsupportedInstruction)
    );
}

#[test]
fn protected_page_denies_enable_and_leaves_state() {
    let mut reg = Registry::new();
    let region =
        Region { base: 0x4000, bytes: sample_bytes(), executable: true, protect_allowed: false };
    assert!(reg.add_region(region));
    assert_eq!(reg.create(0x4000, &int_pair_fn_type(), 0x9000, 0x9100), Ok(()));
    assert_eq!(reg.enable(0x4000), Err(HookError::MemoryProtectionDenied));
    assert_eq!(reg.state_of(0x4000), Some(HookState::Created));
    assert_eq!(reg.region_bytes(0x4000).unwrap(), sample_bytes());
}

#[test]
fn duplicate_region_is_refused() {
    let mut reg = Registry::new();
    assert!(reg.add_region(sample_region(0x4000)));
    assert!(!reg.add_region(sample_region(0x4000)));
}

#[test]
fn hooks_on_distinct_targets_commute() {
    let run = |first: u64, second: u64| -> (Vec<u8>, Vec<u8>, Option<HookState>, Option<HookState>) {
        let mut reg = Registry::new();
        assert!(reg.add_region(sample_region(0x4000)));
        assert!(reg.add_region(sample_region(0x5000)));
        assert_eq!(reg.install_hook(0x4000, &int_pair_fn_type(), 0x9000, 0x9100), Ok(()));
        assert_eq!(reg.install_hook(0x5000, &int_pair_fn_type(), 0xa000, 0xa100), Ok(()));
        // One thread disables its target while another re-enables the
        // other; the registry serializes them in the given order.
        assert_eq!(reg.disable(first), Ok(()));
        assert_eq!(reg.enable(second), Ok(()));
        (
            reg.region_bytes(0x4000).unwrap(),
            reg.region_bytes(0x5000).unwrap(),
            reg.state_of(0x4000),
            reg.state_of(0x5000),
        )
    };
    // Same pair of operations, both serial orders: identical outcome.
    let one = run(0x4000, 0x5000);
    let mut reg = Registry::new();
    assert!(reg.add_region(sample_region(0x4000)));
    assert!(reg.add_region(sample_region(0x5000)));
    assert_eq!(reg.install_hook(0x4000, &int_pair_fn_type(), 0x9000, 0x9100), Ok(()));
    assert_eq!(reg.install_hook(0x5000, &int_pair_fn_type(), 0xa000, 0xa100), Ok(()));
    assert_eq!(reg.enable(0x5000), Ok(()));
    assert_eq!(reg.disable(0x4000), Ok(()));
    let other = (
        reg.region_bytes(0x4000).unwrap(),
        reg.region_bytes(0x5000).unwrap(),
        reg.state_of(0x4000),
        reg.state_of(0x5000),
    );
    assert_eq!(one, other);
    assert_eq!(one.2, Some(HookState::Disabled));
    assert_eq!(one.3, Some(HookState::Enabled));
}

#[test]
fn original_address_is_kept_from_create_onward() {
    let mut reg = Registry::new();
    assert!(reg.add_region(sample_region(0x4000)));
    assert_eq!(reg.original_address(0x4000), None);
    assert_eq!(reg.create(0x4000, &int_pair_fn_type(), 0x9000, 0x9100), Ok(()));
    assert_eq!(reg.original_address(0x4000), Some(0x9100));
    assert_eq!(reg.enable(0x4000), Ok(()));
    assert_eq!(reg.original_address(0x4000), Some(0x9100));
    assert_eq!(reg.disable(0x4000), Ok(()));
    assert_eq!(reg.original_address(0x4000), Some(0x9100));
}
