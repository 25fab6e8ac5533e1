use wasmvm::permission::{callee_readonly, find_declared, set_callee_permission};
use wasmvm::{CallablePoint, ErrorKind};

#[test]
fn readonly_caller_and_readwrite_callee_escalate() {
    assert_eq!(callee_readonly(true, Some(false)), Err(ErrorKind::PermissionEscalation));
    assert_eq!(callee_readonly(true, Some(true)), Ok(true));
    assert_eq!(callee_readonly(false, Some(true)), Ok(true));
    assert_eq!(callee_readonly(false, Some(false)), Ok(false));
    assert_eq!(callee_readonly(false, None), Err(ErrorKind::UnknownCallablePoint));
    assert_eq!(callee_readonly(true, None), Err(ErrorKind::UnknownCallablePoint));
}

#[test]
fn first_declaration_of_a_name_counts() {
    let points = vec![
        CallablePoint::new(b"f".to_vec(), true),
        CallablePoint::new(b"f".to_vec(), false),
        CallablePoint::new(b"g".to_vec(), false),
    ];
    assert_eq!(find_declared(&points, b"f"), Some(true));
    assert_eq!(find_declared(&points, b"g"), Some(false));
    assert_eq!(find_declared(&points, b"h"), None);
    assert_eq!(find_declared(&Vec::new(), b"f"), None);
    assert_eq!(set_callee_permission(&points, b"g", true), Err(ErrorKind::PermissionEscalation));
    assert_eq!(set_callee_permission(&points, b"f", true), Ok(true));
}
