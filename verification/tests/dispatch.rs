use hook_engine::dispatch::{DispatchLog, call_original, dispatch_call, dispatch_call_with_original};

fn target_behavior(args: &Vec<u64>) -> u64 {
    // Stands in for the unmodified original function.
    args.iter().sum::<u64>().wrapping_mul(3)
}

#[test]
fn handler_runs_exactly_once_per_call_with_exact_arguments_in_order() {
    let mut log = DispatchLog::new();
    let mut invocations = 0u32;
    let r1 = dispatch_call(
        |args: &Vec<u64>| {
            invocations += 1;
            args[0] + 1
        },
        vec![10, 20],
        &mut log,
    );
    assert_eq!(invocations, 1);
    assert_eq!(r1, 11);
    let r2 = dispatch_call(
        |args: &Vec<u64>| {
            invocations += 1;
            args[0] + 2
        },
        vec![30],
        &mut log,
    );
    let r3 = dispatch_call(
        |args: &Vec<u64>| {
            invocations += 1;
            args.len() as u64
        },
        vec![],
        &mut log,
    );
    assert_eq!(invocations, 3);
    assert_eq!(r2, 32);
    assert_eq!(r3, 0);
    assert_eq!(log.len(), 3);
    assert_eq!(log.calls, vec![vec![10, 20], vec![30], vec![]]);
}

#[test]
fn handler_return_value_passes_through_unchanged() {
    let mut log = DispatchLog::new();
    let r = dispatch_call(|_args: &Vec<u64>| 0xdead_beef, vec![1, 2, 3], &mut log);
    assert_eq!(r, 0xdead_beef);
}

#[test]
fn handler_with_original_reproduces_the_unhooked_result() {
    let mut log = DispatchLog::new();
    let args = vec![4, 7, 9];
    let direct = target_behavior(&args);
    let r = dispatch_call_with_original(
        |orig: &fn(&Vec<u64>) -> u64, a: &Vec<u64>| call_original(orig, a),
        &(target_behavior as fn(&Vec<u64>) -> u64),
        args,
        &mut log,
    );
    assert_eq!(r, direct);
    assert_eq!(log.calls, vec![vec![4, 7, 9]]);
}

#[test]
fn handler_can_wrap_the_original() {
    let mut log = DispatchLog::new();
    let r = dispatch_call_with_original(
        |orig: &fn(&Vec<u64>) -> u64, a: &Vec<u64>| call_original(orig, a) + 100,
        &(target_behavior as fn(&Vec<u64>) -> u64),
        vec![1, 1],
        &mut log,
    );
    assert_eq!(r, target_behavior(&vec![1, 1]) + 100);
}
