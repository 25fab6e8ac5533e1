use wasmvm::callstack::check_passed_callstack;
use wasmvm::{CallStack, CallablePoint, ErrorKind, LinkAction, LinkCall, LinkEvent, LinkPhase};

fn caller_stack() -> CallStack {
    CallStack::from_addresses(vec![b"origin".to_vec()])
}

fn new_call(readonly: bool, gas_left: u64, function: &[u8]) -> LinkCall {
    LinkCall::new(b"caller".to_vec(), caller_stack(), readonly, gas_left, b"callee".to_vec(), function.to_vec())
}

fn points() -> Vec<CallablePoint> {
    vec![
        CallablePoint::new(b"read".to_vec(), true),
        CallablePoint::new(b"write".to_vec(), false),
    ]
}

/// Drives a call up to the answer of the introspection.
fn introspect(call: &mut LinkCall) -> LinkAction {
    match call.step(LinkEvent::Resolved { cost: 10 }) {
        LinkAction::Instantiate { gas_limit } => assert_eq!(gas_limit, 90),
        other => panic!("unexpected {:?}", other),
    }
    assert!(matches!(call.step(LinkEvent::Instantiated), LinkAction::Introspect));
    call.step(LinkEvent::Introspected { points: points(), used_internally: 5 })
}

#[test]
fn readonly_caller_reaches_readonly_function() {
    let mut call = new_call(true, 100, b"read");
    match introspect(&mut call) {
        LinkAction::Invoke { readonly, callstack } => {
            assert!(readonly);
            assert_eq!(callstack.to_addresses(), vec![b"origin".to_vec(), b"caller".to_vec()]);
        }
        other => panic!("unexpected {:?}", other),
    }
    assert!(matches!(call.step(LinkEvent::Returned { used_internally: 20 }), LinkAction::Finish));
    assert_eq!(call.outcome(), Some(Ok(())));
    assert_eq!(call.gas_info().cost, 30);
    assert!(call.failure_report().is_none());
}

#[test]
fn readonly_caller_cannot_reach_readwrite_function() {
    let mut call = new_call(true, 100, b"write");
    assert!(matches!(introspect(&mut call), LinkAction::Finish));
    assert_eq!(call.outcome(), Some(Err(ErrorKind::PermissionEscalation)));
    assert_eq!(call.phase, LinkPhase::Done);
    let report = call.failure_report().unwrap();
    assert_eq!((report.kind, report.address, report.function), (ErrorKind::PermissionEscalation, b"callee".to_vec(), b"write".to_vec()));
    // the introspection was metered and is still charged
    assert_eq!(call.gas_info().cost, 15);
    // nothing more happens after the end
    assert!(matches!(call.step(LinkEvent::Returned { used_internally: 50 }), LinkAction::Finish));
    assert_eq!(call.gas_info().cost, 15);
}

#[test]
fn readwrite_caller_gets_what_callee_declares() {
    let mut call = new_call(false, 100, b"read");
    match introspect(&mut call) {
        LinkAction::Invoke { readonly, .. } => assert!(readonly),
        other => panic!("unexpected {:?}", other),
    }
    let mut call = new_call(false, 100, b"write");
    match introspect(&mut call) {
        LinkAction::Invoke { readonly, .. } => assert!(!readonly),
        other => panic!("unexpected {:?}", other),
    }
}

#[test]
fn undeclared_function_is_unknown_callable_point() {
    let mut call = new_call(false, 100, b"missing");
    assert!(matches!(introspect(&mut call), LinkAction::Finish));
    assert_eq!(call.outcome(), Some(Err(ErrorKind::UnknownCallablePoint)));
}

#[test]
fn gas_below_resolution_cost_is_out_of_gas_before_instantiation() {
    let mut call = new_call(false, 5, b"read");
    assert!(matches!(call.step(LinkEvent::Resolved { cost: 10 }), LinkAction::Finish));
    assert_eq!(call.outcome(), Some(Err(ErrorKind::OutOfGas)));
    assert!(!call.instantiated);
    assert_eq!(call.gas_info().cost, 10);
}

#[test]
fn failed_resolution_is_reported_with_its_cost() {
    let mut call = new_call(false, 100, b"read");
    let failed = LinkEvent::ResolutionFailed { cost: 3, message: b"no such contract".to_vec() };
    assert!(matches!(call.step(failed), LinkAction::Finish));
    assert_eq!(call.outcome(), Some(Err(ErrorKind::HostResolutionFailure)));
    assert_eq!(call.gas_info().cost, 3);
    let report = call.failure_report().unwrap();
    assert_eq!(report.kind, ErrorKind::HostResolutionFailure);
    assert_eq!(report.address, b"callee".to_vec());
    assert_eq!(report.function, b"read".to_vec());
    assert_eq!(report.message, b"no such contract".to_vec());

    let mut call = new_call(false, 2, b"read");
    call.step(LinkEvent::ResolutionFailed { cost: 3, message: Vec::new() });
    assert_eq!(call.outcome(), Some(Err(ErrorKind::OutOfGas)));
}

#[test]
fn failed_instantiation_charges_only_resolution() {
    let mut call = new_call(false, 100, b"read");
    call.step(LinkEvent::Resolved { cost: 10 });
    assert!(matches!(call.step(LinkEvent::InstantiationFailed), LinkAction::Finish));
    assert_eq!(call.outcome(), Some(Err(ErrorKind::CacheError)));
    assert_eq!(call.gas_info().cost, 10);
}

#[test]
fn failure_of_the_export_keeps_its_gas() {
    let mut call = new_call(false, 100, b"write");
    introspect(&mut call);
    call.step(LinkEvent::Failed { kind: ErrorKind::RegionOverflow, used_internally: 40 });
    assert_eq!(call.outcome(), Some(Err(ErrorKind::RegionOverflow)));
    assert_eq!(call.gas_info().cost, 50);
}

#[test]
fn failed_introspection_is_a_guest_trap() {
    let mut call = new_call(false, 100, b"write");
    call.step(LinkEvent::Resolved { cost: 10 });
    call.step(LinkEvent::Instantiated);
    call.step(LinkEvent::IntrospectionFailed { used_internally: 7 });
    assert_eq!(call.outcome(), Some(Err(ErrorKind::GuestTrap)));
    assert_eq!(call.gas_info().cost, 17);
}

#[test]
fn unexpected_event_is_a_foreign_fault() {
    let mut call = new_call(false, 100, b"read");
    assert!(matches!(call.step(LinkEvent::Instantiated), LinkAction::Finish));
    assert_eq!(call.outcome(), Some(Err(ErrorKind::ForeignFault)));
}

#[test]
fn running_call_has_no_outcome_yet() {
    let mut call = new_call(false, 100, b"read");
    assert_eq!(call.outcome(), None);
    call.step(LinkEvent::Resolved { cost: 10 });
    assert_eq!(call.outcome(), None);
    assert_eq!(call.phase, LinkPhase::Instantiating);
}

#[test]
fn passed_callstack_must_be_caller_chain_plus_caller() {
    let stack = caller_stack();
    let good = stack.extended(b"caller");
    assert_eq!(check_passed_callstack(&stack, b"caller", &good), Ok(()));
    let missing = CallStack::from_addresses(vec![b"origin".to_vec()]);
    assert_eq!(check_passed_callstack(&stack, b"caller", &missing), Err(ErrorKind::MalformedCallstack));
    let wrong = CallStack::from_addresses(vec![b"origin".to_vec(), b"intruder".to_vec()]);
    assert_eq!(check_passed_callstack(&stack, b"caller", &wrong), Err(ErrorKind::MalformedCallstack));
    let longer = good.extended(b"caller");
    assert_eq!(check_passed_callstack(&stack, b"caller", &longer), Err(ErrorKind::MalformedCallstack));
}

#[test]
fn top_level_callstack_is_empty() {
    let stack = CallStack::new();
    assert_eq!(stack.len(), 0);
    let next = stack.extended(b"a");
    assert_eq!(next.len(), 1);
    assert_eq!(next.address(0), b"a".to_vec());
}
