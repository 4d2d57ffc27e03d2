//! The dispatch adapter: the single point every trampoline forwards to. It
//! invokes the user handler exactly once per intercepted call — the handler
//! is consumed by the call — with the forwarded arguments unchanged and in
//! order, hands the handler a callable bound to the captured original when
//! one was requested, and passes the handler's return value back unchanged
//! as the trampoline's return value. Every dispatched call is appended to a
//! log, so the sequence of interceptions is itself observable.

use vstd::prelude::*;

verus! {

/// The record of every call dispatched through a hook: one argument list
/// per interception, in the order the calls arrived.
pub struct DispatchLog {
    pub calls: Vec<Vec<u64>>,
}

impl DispatchLog {
    /// An empty log: no call has been dispatched yet.
    pub fn new() -> (log: DispatchLog)
        ensures
            log.calls@.len() == 0,
    {
        DispatchLog { calls: Vec::new() }
    }

    /// How many calls have been dispatched.
    pub fn len(&self) -> (n: usize)
        ensures
            n == self.calls@.len(),
    {
        self.calls.len()
    }
}

/// Dispatches one intercepted call: invokes the handler exactly once with
/// the forwarded arguments and returns its result unchanged. The call is
/// appended to the log, so after any run of interceptions the log holds
/// exactly their argument lists in arrival order.
pub fn dispatch_call<H: FnOnce(&Vec<u64>) -> u64>(
    handler: H,
    args: Vec<u64>,
    log: &mut DispatchLog,
) -> (r: u64)
    requires
        call_requires(handler, (&args,)),
    ensures
        call_ensures(handler, (&args,), r),
        final(log).calls@ == old(log).calls@.push(args),
{
    let r = handler(&args);
    log.calls.push(args);
    r
}

/// Dispatches one intercepted call whose handler asked for access to the
/// original: besides the forwarded arguments, the handler receives the
/// callable bound to the captured original, unchanged. Invoking that
/// callable inside the handler invokes the unmodified target.
pub fn dispatch_call_with_original<O: Fn(&Vec<u64>) -> u64, H: FnOnce(&O, &Vec<u64>) -> u64>(
    handler: H,
    original: &O,
    args: Vec<u64>,
    log: &mut DispatchLog,
) -> (r: u64)
    requires
        call_requires(handler, (original, &args)),
    ensures
        call_ensures(handler, (original, &args), r),
        final(log).calls@ == old(log).calls@.push(args),
{
    let r = handler(original, &args);
    log.calls.push(args);
    r
}

/// Invokes the callable bound to the captured original: what a handler
/// does when it wants the unmodified target's result. What comes back is
/// a result the original admits on these arguments, so a handler that
/// merely forwards reproduces the unhooked behavior.
pub fn call_original<O: Fn(&Vec<u64>) -> u64>(original: &O, args: &Vec<u64>) -> (r: u64)
    requires
        call_requires(*original, (args,)),
    ensures
        call_ensures(*original, (args,), r),
{
    original(args)
}

/// Dispatch keeps arrival order: two calls dispatched one after the other
/// stand in the log as exactly those two argument lists, in that order,
/// after whatever was logged before.
pub proof fn lemma_dispatch_order(l: Seq<Vec<u64>>, first: Vec<u64>, second: Vec<u64>)
    ensures
        l.push(first).push(second) == l + seq![first, second],
        l.push(first).push(second)[l.len() as int] == first,
        l.push(first).push(second)[l.len() as int + 1] == second,
{
    assert(l.push(first).push(second) =~= l + seq![first, second]);
}

} // verus!
