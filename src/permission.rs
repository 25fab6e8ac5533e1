use vstd::prelude::*;

use crate::bytes::same_bytes;
use crate::error::ErrorKind;

verus! {

/// One entry of a callee's introspection answer: an exported function that other
/// contracts may call, and whether it only reads storage.
#[derive(Debug)]
pub struct CallablePoint {
    pub name: Vec<u8>,
    pub is_readonly: bool,
}

/// What the callee declares for `name`: the flag of the first entry with that
/// name, or nothing where no entry has it.
pub open spec fn declared_readonly(points: Seq<CallablePoint>, name: Seq<u8>) -> Option<bool>
    decreases points.len(),
{
    if points.len() == 0 {
        None
    } else if points[0].name@ == name {
        Some(points[0].is_readonly)
    } else {
        declared_readonly(points.drop_first(), name)
    }
}

/// The storage permission of a callee, given the caller's and what the callee
/// declares: a read-only caller may only reach read-only functions; otherwise the
/// callee runs with exactly what it declares.
pub open spec fn callee_readonly_spec(caller_readonly: bool, declared: Option<bool>) -> Result<bool, ErrorKind> {
    match declared {
        None => Err(ErrorKind::UnknownCallablePoint),
        Some(readonly) => if caller_readonly && !readonly {
            Err(ErrorKind::PermissionEscalation)
        } else {
            Ok(readonly)
        },
    }
}

impl CallablePoint {
    pub fn new(name: Vec<u8>, is_readonly: bool) -> (r: CallablePoint)
        ensures
            r.name@ == name@,
            r.is_readonly == is_readonly,
    {
        CallablePoint { name, is_readonly }
    }
}

/// Looks `name` up among the declared callable points.
pub fn find_declared(points: &Vec<CallablePoint>, name: &[u8]) -> (r: Option<bool>)
    ensures
        r == declared_readonly(points@, name@),
{
    let mut i: usize = 0;
    assert(points@.subrange(0, points@.len() as int) =~= points@);
    while i < points.len()
        invariant
            0 <= i <= points@.len(),
            declared_readonly(points@.subrange(i as int, points@.len() as int), name@)
                == declared_readonly(points@, name@),
        decreases points@.len() - i,
    {
        assert(points@.subrange(i as int, points@.len() as int).drop_first()
            =~= points@.subrange(i + 1, points@.len() as int));
        if same_bytes(points[i].name.as_slice(), name) {
            return Some(points[i].is_readonly);
        }
        i = i + 1;
    }
    assert(points@.subrange(i as int, points@.len() as int).len() == 0);
    None
}

/// The storage permission of a callee, or why the call may not go ahead.
pub fn callee_readonly(caller_readonly: bool, declared: Option<bool>) -> (r: Result<bool, ErrorKind>)
    ensures
        r == callee_readonly_spec(caller_readonly, declared),
{
    match declared {
        None => Err(ErrorKind::UnknownCallablePoint),
        Some(readonly) => if caller_readonly && !readonly {
            Err(ErrorKind::PermissionEscalation)
        } else {
            Ok(readonly)
        },
    }
}

/// Decides the callee's permission for `name` from its introspection answer.
pub fn set_callee_permission(points: &Vec<CallablePoint>, name: &[u8], caller_readonly: bool) -> (r: Result<bool, ErrorKind>)
    ensures
        r == callee_readonly_spec(caller_readonly, declared_readonly(points@, name@)),
{
    let declared = find_declared(points, name);
    callee_readonly(caller_readonly, declared)
}

/// A read-only caller never reaches a function that the callee declares read-write.
pub proof fn lemma_readonly_never_escalates(caller_readonly: bool, declared: Option<bool>)
    requires
        caller_readonly,
        declared == Some(false),
    ensures
        callee_readonly_spec(caller_readonly, declared) == Err::<bool, ErrorKind>(ErrorKind::PermissionEscalation),
{
}

/// Where a call is allowed, the callee runs with what it declares, never with
/// more than the caller had.
pub proof fn lemma_callee_permission_is_declared(caller_readonly: bool, declared: Option<bool>)
    requires
        callee_readonly_spec(caller_readonly, declared) is Ok,
    ensures
        declared is Some,
        callee_readonly_spec(caller_readonly, declared) == Ok::<bool, ErrorKind>(declared->Some_0),
        caller_readonly ==> declared->Some_0,
{
}

} // verus!
