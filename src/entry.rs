use vstd::prelude::*;

use crate::callstack::CallStack;
use crate::checksum::Checksum;
use crate::error::ErrorKind;
use crate::permission::{callee_readonly_spec, declared_readonly, set_callee_permission, CallablePoint};
use crate::region::{
    can_allocate, copy_values, lemma_values_length_views, region_bytes, region_in_bounds, total_length, values_length, write_values, LinearMemory, Region,
};

verus! {

/// A mebibyte.
pub const MI: usize = 1048576;

/// The most bytes that the results of one callable point may take together.
pub const MAX_REGIONS_LENGTH_OUTPUT: usize = 64 * MI;

/// The bytes of the string that a JSON text holds, if it holds one.
pub uninterp spec fn json_string_of(json: Seq<u8>) -> Option<Seq<u8>>;

/// The byte strings of a JSON array of base64 strings, if the text is one.
pub uninterp spec fn json_binaries_of(json: Seq<u8>) -> Option<Seq<Seq<u8>>>;

/// The addresses of a JSON array of strings, as bytes, if the text is one.
pub uninterp spec fn json_addresses_of(json: Seq<u8>) -> Option<Seq<Seq<u8>>>;

/// Relies on serde_json::from_slice into a `String`: the decoded string, or an
/// error where the text is no JSON string.
#[verifier::external_body]
fn decode_json_string(json: &[u8]) -> (r: Option<Vec<u8>>)
    ensures
        match r {
            Some(v) => json_string_of(json@) == Some(v@),
            None => json_string_of(json@) is None,
        },
{
    serde_json::from_slice::<String>(json).ok().map(|s| s.into_bytes())
}

/// Relies on serde_json::from_slice into a `Vec<cosmwasm_std::Binary>`: each
/// element is a base64 string, decoded.
#[verifier::external_body]
fn decode_json_binaries(json: &[u8]) -> (r: Option<Vec<Vec<u8>>>)
    ensures
        match r {
            Some(v) => json_binaries_of(json@) == Some(v@.map_values(|b: Vec<u8>| b@)),
            None => json_binaries_of(json@) is None,
        },
{
    serde_json::from_slice::<Vec<cosmwasm_std::Binary>>(json).ok().map(|v| v.into_iter().map(|b| b.0).collect())
}

/// Relies on serde_json::from_slice into a `Vec<cosmwasm_std::Addr>`: each
/// element is a JSON string.
#[verifier::external_body]
fn decode_json_addresses(json: &[u8]) -> (r: Option<Vec<Vec<u8>>>)
    ensures
        match r {
            Some(v) => json_addresses_of(json@) == Some(v@.map_values(|b: Vec<u8>| b@)),
            None => json_addresses_of(json@) is None,
        },
{
    serde_json::from_slice::<Vec<cosmwasm_std::Addr>>(json).ok().map(|v| v.into_iter().map(|a| a.into_string().into_bytes()).collect())
}

/// The JSON text of a string.
pub uninterp spec fn json_string_encoding(s: Seq<char>) -> Seq<u8>;

/// The JSON text of an array of byte strings, each as a base64 string.
pub uninterp spec fn json_binaries_encoding(values: Seq<Seq<u8>>) -> Seq<u8>;

/// Relies on serde_json::to_vec of a `str`: its JSON text, which depends on the
/// characters alone.
#[verifier::external_body]
fn encode_json_string(s: &str) -> (r: Vec<u8>)
    ensures
        r@ == json_string_encoding(s@),
{
    serde_json::to_vec(s).unwrap_or_default()
}

/// Relies on serde_json::to_vec of a `Vec<cosmwasm_std::Binary>`: a JSON array of
/// base64 strings, which depends on the bytes alone.
#[verifier::external_body]
fn encode_json_binaries(values: &Vec<Vec<u8>>) -> (r: Vec<u8>)
    ensures
        r@ == json_binaries_encoding(values@.map_values(|v: Vec<u8>| v@)),
{
    serde_json::to_vec(&values.iter().map(|v| cosmwasm_std::Binary(v.clone())).collect::<Vec<_>>()).unwrap_or_default()
}

/// The name and the arguments of a call of a callable point, encoded as the
/// host hands them to the callee.
pub fn encode_callable_point_call(name: &str, args: &Vec<Vec<u8>>) -> (r: (Vec<u8>, Vec<u8>))
    ensures
        r.0@ == json_string_encoding(name@),
        r.1@ == json_binaries_encoding(args@.map_values(|v: Vec<u8>| v@)),
{
    (encode_json_string(name), encode_json_binaries(args))
}

/// A call of a callable point as the host hands it over, decoded.
#[derive(Debug)]
pub struct CallableRequest {
    pub name: Vec<u8>,
    pub checksum: Checksum,
    pub callstack: CallStack,
    pub env: Vec<u8>,
    pub args: Vec<Vec<u8>>,
}

/// Decodes the arguments of a call of a callable point: the name is a JSON string,
/// the call chain a JSON array of addresses, the arguments a JSON array of base64
/// strings, and the checksum 32 raw bytes. Every one of them must be given.
pub fn decode_callable_request(
    name: Option<&[u8]>,
    checksum: Option<&[u8]>,
    callstack: Option<&[u8]>,
    env: Option<&[u8]>,
    args: Option<&[u8]>,
) -> (r: Result<CallableRequest, ErrorKind>)
    ensures
        r is Ok <==> {
            &&& name is Some && json_string_of(name->Some_0@) is Some
            &&& checksum is Some && checksum->Some_0@.len() == 32
            &&& callstack is Some && json_addresses_of(callstack->Some_0@) is Some
            &&& env is Some
            &&& args is Some && json_binaries_of(args->Some_0@) is Some
        },
        r is Err ==> r == Err::<CallableRequest, ErrorKind>(ErrorKind::ArgumentError),
        r is Ok ==> {
            &&& json_string_of(name->Some_0@) == Some(r->Ok_0.name@)
            &&& r->Ok_0.checksum@ == checksum->Some_0@
            &&& json_addresses_of(callstack->Some_0@) == Some(r->Ok_0.callstack@)
            &&& r->Ok_0.env@ == env->Some_0@
            &&& json_binaries_of(args->Some_0@) == Some(r->Ok_0.args@.map_values(|b: Vec<u8>| b@))
        },
{
    let name = match name {
        Some(n) => match decode_json_string(n) {
            Some(v) => v,
            None => return Err(ErrorKind::ArgumentError),
        },
        None => return Err(ErrorKind::ArgumentError),
    };
    let args_json = match args {
        Some(a) => a,
        None => return Err(ErrorKind::ArgumentError),
    };
    let args = match decode_json_binaries(args_json) {
        Some(v) => v,
        None => return Err(ErrorKind::ArgumentError),
    };
    let checksum = match checksum {
        Some(c) => Checksum::from_slice(c)?,
        None => return Err(ErrorKind::ArgumentError),
    };
    let callstack = match callstack {
        Some(c) => match decode_json_addresses(c) {
            Some(v) => CallStack::from_addresses(v),
            None => return Err(ErrorKind::ArgumentError),
        },
        None => return Err(ErrorKind::ArgumentError),
    };
    let env = match env {
        Some(e) => crate::bytes::copy_bytes(e),
        None => return Err(ErrorKind::ArgumentError),
    };
    Ok(CallableRequest { name, checksum, callstack, env, args })
}

/// The result of a callable point: none, or its single value. More than one is an error.
pub fn single_result(values: Vec<Vec<u8>>) -> (r: Result<Option<Vec<u8>>, ErrorKind>)
    ensures
        values@.len() == 0 ==> r == Ok::<Option<Vec<u8>>, ErrorKind>(None),
        values@.len() == 1 ==> r is Ok && r->Ok_0 is Some && r->Ok_0->Some_0@ == values@[0]@,
        values@.len() > 1 ==> r == Err::<Option<Vec<u8>>, ErrorKind>(ErrorKind::GuestTrap),
{
    let mut values = values;
    if values.len() == 0 {
        Ok(None)
    } else if values.len() == 1 {
        Ok(values.pop())
    } else {
        Err(ErrorKind::GuestTrap)
    }
}

/// Reads the results of a callable point out of the callee's memory.
pub fn read_call_results(mem: &LinearMemory, regions: &Vec<Region>) -> (r: Result<Option<Vec<u8>>, ErrorKind>)
    ensures
        total_length(regions@) > MAX_REGIONS_LENGTH_OUTPUT ==> r == Err::<Option<Vec<u8>>, ErrorKind>(ErrorKind::RegionOverflow),
        total_length(regions@) <= MAX_REGIONS_LENGTH_OUTPUT && (exists|i: int| 0 <= i < regions@.len() && !region_in_bounds(mem.bytes@, #[trigger] regions@[i]))
            ==> r == Err::<Option<Vec<u8>>, ErrorKind>(ErrorKind::RegionOutOfBounds),
        total_length(regions@) <= MAX_REGIONS_LENGTH_OUTPUT && (forall|i: int| 0 <= i < regions@.len() ==> region_in_bounds(mem.bytes@, #[trigger] regions@[i])) ==> {
            &&& regions@.len() == 0 ==> r == Ok::<Option<Vec<u8>>, ErrorKind>(None)
            &&& regions@.len() == 1 ==> r is Ok && r->Ok_0 is Some && r->Ok_0->Some_0@ == region_bytes(mem.bytes@, regions@[0])
            &&& regions@.len() > 1 ==> r == Err::<Option<Vec<u8>>, ErrorKind>(ErrorKind::GuestTrap)
        },
{
    let values = copy_values(mem, regions, MAX_REGIONS_LENGTH_OUTPUT)?;
    single_result(values)
}

/// The environment followed by the arguments, as the callee receives them.
pub open spec fn callee_inputs(request: CallableRequest) -> Seq<Vec<u8>> {
    seq![request.env].add(request.args@)
}

/// Prepares the callee's side of a call: decides its permission from what it
/// declares, then writes the environment and the arguments into its memory. A
/// call that may not go ahead writes nothing.
pub fn prepare_callable_point_call(
    request: &CallableRequest,
    points: &Vec<CallablePoint>,
    is_readonly: bool,
    mem: &mut LinearMemory,
) -> (r: Result<(bool, Vec<Region>), ErrorKind>)
    requires
        old(mem).wf(),
    ensures
        final(mem).wf(),
        r is Err ==> *final(mem) == *old(mem),
        callee_readonly_spec(is_readonly, declared_readonly(points@, request.name@)) is Err
            ==> r == Err::<(bool, Vec<Region>), ErrorKind>(callee_readonly_spec(is_readonly, declared_readonly(points@, request.name@))->Err_0),
        callee_readonly_spec(is_readonly, declared_readonly(points@, request.name@)) is Ok ==> {
            &&& r is Ok <==> can_allocate(*old(mem), values_length(callee_inputs(*request)))
            &&& r is Err ==> r == Err::<(bool, Vec<Region>), ErrorKind>(ErrorKind::AllocationFailure)
            &&& r is Ok ==> {
                &&& r->Ok_0.0 == callee_readonly_spec(is_readonly, declared_readonly(points@, request.name@))->Ok_0
                &&& r->Ok_0.1@.len() == request.args@.len() + 1
                &&& region_bytes(final(mem).bytes@, r->Ok_0.1@[0]) == request.env@
                &&& forall|i: int| 0 <= i < request.args@.len() ==>
                    region_bytes(final(mem).bytes@, #[trigger] r->Ok_0.1@[i + 1]) == request.args@[i]@
            }
        },
{
    let readonly = set_callee_permission(points, request.name.as_slice(), is_readonly)?;
    let mut inputs: Vec<Vec<u8>> = Vec::new();
    inputs.push(crate::bytes::copy_bytes(request.env.as_slice()));
    let mut i: usize = 0;
    while i < request.args.len()
        invariant
            0 <= i <= request.args@.len(),
            inputs@.len() == i + 1,
            inputs@[0]@ == request.env@,
            forall|j: int| 0 <= j < i ==> (#[trigger] inputs@[j + 1])@ == request.args@[j]@,
        decreases request.args@.len() - i,
    {
        inputs.push(crate::bytes::copy_bytes(request.args[i].as_slice()));
        i = i + 1;
    }
    proof {
        let expected = callee_inputs(*request);
        assert forall|k: int| 0 <= k < inputs@.len() implies (#[trigger] inputs@[k])@ == expected[k]@ by {
            if k > 0 {
                assert(inputs@[(k - 1) + 1]@ == request.args@[k - 1]@);
            }
        }
        lemma_values_length_views(inputs@, expected);
    }
    let regions = write_values(mem, &inputs)?;
    proof {
        assert forall|k: int| 0 <= k < request.args@.len() implies
            region_bytes(mem.bytes@, #[trigger] regions@[k + 1]) == request.args@[k]@ by {
            assert(inputs@[k + 1]@ == request.args@[k]@);
        }
    }
    Ok((readonly, regions))
}

/// What the callee side of a call hands back to the host: the single result, the
/// gas the callee metered, and, for a call that may write, its serialized events
/// and attributes.
#[derive(Debug)]
pub struct CallableOutcome {
    pub data: Option<Vec<u8>>,
    pub gas_used: u64,
    pub events: Option<Vec<u8>>,
    pub attributes: Option<Vec<u8>>,
}

/// Finishes the callee side of a call: reads its result out of the callee's
/// memory and reports the gas the callee metered. Events and attributes are
/// reported for a call that may write, never for a read-only one.
pub fn finish_callable_point_call(
    mem: &LinearMemory,
    result_regions: &Vec<Region>,
    used_internally: u64,
    is_readonly: bool,
    events: Vec<u8>,
    attributes: Vec<u8>,
) -> (r: Result<CallableOutcome, ErrorKind>)
    ensures
        r is Ok ==> {
            &&& r->Ok_0.gas_used == used_internally
            &&& is_readonly ==> r->Ok_0.events is None && r->Ok_0.attributes is None
            &&& !is_readonly ==> r->Ok_0.events == Some(events) && r->Ok_0.attributes == Some(attributes)
        },
        total_length(result_regions@) > MAX_REGIONS_LENGTH_OUTPUT ==> r == Err::<CallableOutcome, ErrorKind>(ErrorKind::RegionOverflow),
        total_length(result_regions@) <= MAX_REGIONS_LENGTH_OUTPUT
            && (exists|i: int| 0 <= i < result_regions@.len() && !region_in_bounds(mem.bytes@, #[trigger] result_regions@[i]))
            ==> r == Err::<CallableOutcome, ErrorKind>(ErrorKind::RegionOutOfBounds),
        total_length(result_regions@) <= MAX_REGIONS_LENGTH_OUTPUT
            && (forall|i: int| 0 <= i < result_regions@.len() ==> region_in_bounds(mem.bytes@, #[trigger] result_regions@[i])) ==> {
            &&& result_regions@.len() == 0 ==> r is Ok && r->Ok_0.data is None
            &&& result_regions@.len() == 1 ==> r is Ok && r->Ok_0.data is Some
                && r->Ok_0.data->Some_0@ == region_bytes(mem.bytes@, result_regions@[0])
            &&& result_regions@.len() > 1 ==> r == Err::<CallableOutcome, ErrorKind>(ErrorKind::GuestTrap)
        },
{
    let data = read_call_results(mem, result_regions)?;
    if is_readonly {
        Ok(CallableOutcome { data, gas_used: used_internally, events: None, attributes: None })
    } else {
        Ok(CallableOutcome { data, gas_used: used_internally, events: Some(events), attributes: Some(attributes) })
    }
}

} // verus!
