use wasmvm::entry::{
    decode_callable_request, finish_callable_point_call, prepare_callable_point_call, single_result, MAX_REGIONS_LENGTH_OUTPUT,
};
use wasmvm::region::read_region;
use wasmvm::{CallablePoint, LinearMemory, Region};
use wasmvm::ErrorKind;

const NAME: &[u8] = br#""add""#;
const CALLSTACK: &[u8] = br#"["origin","caller"]"#;
const ARGS: &[u8] = br#"["aGVsbG8=",""]"#;
const ENV: &[u8] = b"{}";

#[test]
fn decodes_a_complete_request() {
    let checksum = [9u8; 32];
    let req = decode_callable_request(Some(NAME), Some(&checksum), Some(CALLSTACK), Some(ENV), Some(ARGS)).unwrap();
    assert_eq!(req.name, b"add".to_vec());
    assert_eq!(req.checksum.to_vec(), checksum.to_vec());
    assert_eq!(req.callstack.to_addresses(), vec![b"origin".to_vec(), b"caller".to_vec()]);
    assert_eq!(req.env, ENV.to_vec());
    assert_eq!(req.args, vec![b"hello".to_vec(), Vec::new()]);
}

#[test]
fn missing_arguments_are_argument_errors() {
    let checksum = [9u8; 32];
    assert!(matches!(decode_callable_request(None, Some(&checksum), Some(CALLSTACK), Some(ENV), Some(ARGS)), Err(ErrorKind::ArgumentError)));
    assert!(matches!(decode_callable_request(Some(NAME), None, Some(CALLSTACK), Some(ENV), Some(ARGS)), Err(ErrorKind::ArgumentError)));
    assert!(matches!(decode_callable_request(Some(NAME), Some(&checksum), None, Some(ENV), Some(ARGS)), Err(ErrorKind::ArgumentError)));
    assert!(matches!(decode_callable_request(Some(NAME), Some(&checksum), Some(CALLSTACK), None, Some(ARGS)), Err(ErrorKind::ArgumentError)));
    assert!(matches!(decode_callable_request(Some(NAME), Some(&checksum), Some(CALLSTACK), Some(ENV), None), Err(ErrorKind::ArgumentError)));
}

#[test]
fn malformed_arguments_are_argument_errors() {
    let checksum = [9u8; 32];
    let short = [9u8; 31];
    assert!(matches!(decode_callable_request(Some(b"add"), Some(&checksum), Some(CALLSTACK), Some(ENV), Some(ARGS)), Err(ErrorKind::ArgumentError)));
    assert!(matches!(decode_callable_request(Some(NAME), Some(&short), Some(CALLSTACK), Some(ENV), Some(ARGS)), Err(ErrorKind::ArgumentError)));
    assert!(matches!(decode_callable_request(Some(NAME), Some(&checksum), Some(b"[1]"), Some(ENV), Some(ARGS)), Err(ErrorKind::ArgumentError)));
    assert!(matches!(decode_callable_request(Some(NAME), Some(&checksum), Some(CALLSTACK), Some(ENV), Some(br#"["!!"]"#)), Err(ErrorKind::ArgumentError)));
}

#[test]
fn single_result_shapes() {
    assert_eq!(single_result(vec![]), Ok(None));
    assert_eq!(single_result(vec![b"x".to_vec()]), Ok(Some(b"x".to_vec())));
    assert_eq!(single_result(vec![b"x".to_vec(), b"y".to_vec()]), Err(ErrorKind::GuestTrap));
}

#[test]
fn output_limit_is_64_mebibytes() {
    assert_eq!(MAX_REGIONS_LENGTH_OUTPUT, 64 * 1024 * 1024);
}

#[test]
fn encodes_name_and_arguments_as_json() {
    let (name, args) = wasmvm::entry::encode_callable_point_call("add", &vec![b"hello".to_vec(), Vec::new()]);
    assert_eq!(name, br#""add""#.to_vec());
    assert_eq!(args, br#"["aGVsbG8=",""]"#.to_vec());
    let checksum = [1u8; 32];
    let req = decode_callable_request(Some(&name), Some(&checksum), Some(b"[]"), Some(b""), Some(&args)).unwrap();
    assert_eq!(req.name, b"add".to_vec());
    assert_eq!(req.args, vec![b"hello".to_vec(), Vec::new()]);
    assert_eq!(req.callstack.len(), 0);
}

#[test]
fn callee_side_call_is_prepared_only_when_allowed() {
    let checksum = [9u8; 32];
    let points = vec![CallablePoint::new(b"add".to_vec(), false)];
    let req = decode_callable_request(Some(NAME), Some(&checksum), Some(CALLSTACK), Some(ENV), Some(ARGS)).unwrap();

    let mut mem = LinearMemory::new(32);
    assert!(matches!(prepare_callable_point_call(&req, &points, true, &mut mem), Err(ErrorKind::PermissionEscalation)));
    assert_eq!(mem.heap_top, 0);
    assert_eq!(mem.bytes, vec![0u8; 32]);

    let (readonly, regions) = prepare_callable_point_call(&req, &points, false, &mut mem).unwrap();
    assert!(!readonly);
    assert_eq!(regions.len(), 3);
    assert_eq!(read_region(&mem, &regions[0]), Ok(ENV.to_vec()));
    assert_eq!(read_region(&mem, &regions[1]), Ok(b"hello".to_vec()));
    assert_eq!(read_region(&mem, &regions[2]), Ok(Vec::new()));

    let mut small = LinearMemory::new(4);
    assert!(matches!(prepare_callable_point_call(&req, &points, false, &mut small), Err(ErrorKind::AllocationFailure)));
    assert_eq!(small.heap_top, 0);

    let unknown = vec![CallablePoint::new(b"sub".to_vec(), true)];
    assert!(matches!(prepare_callable_point_call(&req, &unknown, false, &mut small), Err(ErrorKind::UnknownCallablePoint)));
}

#[test]
fn callee_side_reports_gas_and_events_only_when_writing() {
    let mem = LinearMemory::from_bytes(b"answer".to_vec(), 6).unwrap();
    let regions = vec![Region { offset: 0, capacity: 6, length: 6 }];
    let out = finish_callable_point_call(&mem, &regions, 42, false, b"[]".to_vec(), b"[1]".to_vec()).unwrap();
    assert_eq!(out.data, Some(b"answer".to_vec()));
    assert_eq!(out.gas_used, 42);
    assert_eq!(out.events, Some(b"[]".to_vec()));
    assert_eq!(out.attributes, Some(b"[1]".to_vec()));
    let ro = finish_callable_point_call(&mem, &Vec::new(), 7, true, b"[]".to_vec(), b"[]".to_vec()).unwrap();
    assert_eq!(ro.data, None);
    assert_eq!(ro.gas_used, 7);
    assert!(ro.events.is_none() && ro.attributes.is_none());
    let two = vec![regions[0], regions[0]];
    assert!(matches!(finish_callable_point_call(&mem, &two, 7, true, Vec::new(), Vec::new()), Err(ErrorKind::GuestTrap)));
}
