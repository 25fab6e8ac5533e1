use wasmvm::entry::read_call_results;
use wasmvm::region::{copy_region_vals_between, copy_values, marshal_arguments, read_region, write_value, write_values};
use wasmvm::{ErrorKind, LinearMemory, Region};

fn memory_with(bytes: &[u8]) -> LinearMemory {
    LinearMemory::from_bytes(bytes.to_vec(), bytes.len()).unwrap()
}

fn region(offset: u32, length: u32) -> Region {
    Region { offset, capacity: length, length }
}

#[test]
fn from_bytes_checks_heap_top() {
    assert!(LinearMemory::from_bytes(vec![0; 4], 5).is_none());
    assert!(LinearMemory::from_bytes(vec![0; 4], 4).is_some());
}

#[test]
fn read_region_returns_its_bytes() {
    let mem = memory_with(b"hello world");
    assert_eq!(read_region(&mem, &region(6, 5)), Ok(b"world".to_vec()));
    let partial = Region { offset: 0, capacity: 5, length: 2 };
    assert_eq!(read_region(&mem, &partial), Ok(b"he".to_vec()));
}

#[test]
fn read_region_out_of_bounds() {
    let mem = memory_with(b"hello");
    assert_eq!(read_region(&mem, &region(3, 3)), Err(ErrorKind::RegionOutOfBounds));
    let bad = Region { offset: 0, capacity: 2, length: 3 };
    assert_eq!(read_region(&mem, &bad), Err(ErrorKind::RegionOutOfBounds));
}

#[test]
fn copy_values_enforces_cumulative_budget() {
    let mem = memory_with(b"abcdef");
    let regions = vec![region(0, 3), region(3, 3)];
    assert_eq!(copy_values(&mem, &regions, 5), Err(ErrorKind::RegionOverflow));
    assert_eq!(copy_values(&mem, &regions, 6), Ok(vec![b"abc".to_vec(), b"def".to_vec()]));
}

#[test]
fn copy_values_budget_is_checked_before_bounds() {
    let mem = memory_with(b"abc");
    let regions = vec![region(0, 3), region(100, 3)];
    assert_eq!(copy_values(&mem, &regions, 4), Err(ErrorKind::RegionOverflow));
    assert_eq!(copy_values(&mem, &regions, 6), Err(ErrorKind::RegionOutOfBounds));
}

#[test]
fn write_value_allocates_at_heap_top() {
    let mut mem = LinearMemory::new(16);
    let r1 = write_value(&mut mem, b"abc").unwrap();
    let r2 = write_value(&mut mem, b"de").unwrap();
    assert_eq!(r1, region(0, 3));
    assert_eq!(r2, region(3, 2));
    assert_eq!(mem.heap_top, 5);
    assert_eq!(&mem.bytes[0..5], b"abcde");
    assert_eq!(read_region(&mem, &r2), Ok(b"de".to_vec()));
}

#[test]
fn write_value_without_room_writes_nothing() {
    let mut mem = LinearMemory::new(4);
    write_value(&mut mem, b"ab").unwrap();
    assert_eq!(write_value(&mut mem, b"xyz"), Err(ErrorKind::AllocationFailure));
    assert_eq!(mem.heap_top, 2);
    assert_eq!(mem.bytes, vec![b'a', b'b', 0, 0]);
}

#[test]
fn write_values_is_all_or_nothing() {
    let mut mem = LinearMemory::new(5);
    let values = vec![b"abc".to_vec(), b"def".to_vec()];
    assert_eq!(write_values(&mut mem, &values), Err(ErrorKind::AllocationFailure));
    assert_eq!(mem.heap_top, 0);
    assert_eq!(mem.bytes, vec![0u8; 5]);
    let fitting = vec![b"ab".to_vec(), b"cde".to_vec()];
    assert_eq!(write_values(&mut mem, &fitting), Ok(vec![region(0, 2), region(2, 3)]));
    assert_eq!(mem.bytes, b"abcde".to_vec());
}

#[test]
fn marshal_over_budget_is_region_overflow_without_partial_write() {
    let caller = memory_with(b"0123456789");
    let mut callee = LinearMemory::new(64);
    write_value(&mut callee, b"kept").unwrap();
    let before = callee.bytes.clone();
    let args = vec![region(0, 6), region(6, 4)];
    assert_eq!(marshal_arguments(&caller, &args, 9, b"env", &mut callee), Err(ErrorKind::RegionOverflow));
    assert_eq!(callee.bytes, before);
    assert_eq!(callee.heap_top, 4);
}

#[test]
fn marshal_prepends_environment() {
    let caller = memory_with(b"0123456789");
    let mut callee = LinearMemory::new(64);
    let args = vec![region(0, 2), region(5, 3)];
    let regions = marshal_arguments(&caller, &args, 10, b"env", &mut callee).unwrap();
    assert_eq!(regions.len(), 3);
    assert_eq!(read_region(&callee, &regions[0]), Ok(b"env".to_vec()));
    assert_eq!(read_region(&callee, &regions[1]), Ok(b"01".to_vec()));
    assert_eq!(read_region(&callee, &regions[2]), Ok(b"567".to_vec()));
}

#[test]
fn marshal_without_room_in_callee_writes_nothing() {
    let caller = memory_with(b"0123456789");
    let mut callee = LinearMemory::new(6);
    let args = vec![region(0, 4)];
    assert_eq!(marshal_arguments(&caller, &args, 10, b"env", &mut callee), Err(ErrorKind::AllocationFailure));
    assert_eq!(callee.heap_top, 0);
    assert_eq!(callee.bytes, vec![0u8; 6]);
}

#[test]
fn copy_between_memories() {
    let src = memory_with(b"result");
    let mut dest = LinearMemory::new(8);
    let regions = copy_region_vals_between(&src, &vec![region(0, 6)], 6, &mut dest).unwrap();
    assert_eq!(read_region(&dest, &regions[0]), Ok(b"result".to_vec()));
    assert_eq!(copy_region_vals_between(&src, &vec![region(0, 6)], 5, &mut dest), Err(ErrorKind::RegionOverflow));
}

#[test]
fn call_results_take_at_most_one_value() {
    let mem = memory_with(b"abcdef");
    assert_eq!(read_call_results(&mem, &vec![]), Ok(None));
    assert_eq!(read_call_results(&mem, &vec![region(1, 2)]), Ok(Some(b"bc".to_vec())));
    assert_eq!(read_call_results(&mem, &vec![region(0, 1), region(1, 1)]), Err(ErrorKind::GuestTrap));
    assert_eq!(read_call_results(&mem, &vec![region(4, 4)]), Err(ErrorKind::RegionOutOfBounds));
}

#[test]
fn marshal_succeeds_when_everything_fits() {
    let caller = memory_with(b"0123456789");
    let mut callee = LinearMemory::new(13);
    let args = vec![region(0, 10)];
    let regions = marshal_arguments(&caller, &args, 10, b"env", &mut callee).unwrap();
    assert_eq!(read_region(&callee, &regions[1]), Ok(b"0123456789".to_vec()));
    assert_eq!(callee.heap_top, 13);
}

#[test]
fn copy_between_without_room_is_allocation_failure() {
    let src = memory_with(b"result");
    let mut dest = LinearMemory::new(5);
    assert_eq!(copy_region_vals_between(&src, &vec![region(0, 6)], 6, &mut dest), Err(ErrorKind::AllocationFailure));
    assert_eq!(dest.heap_top, 0);
}
