use wasmvm::{Checksum, ErrorKind, ModuleCache};

// the smallest module: the magic number and version 1
const MINIMAL_MODULE: &[u8] = &[0x00, 0x61, 0x73, 0x6d, 0x01, 0x00, 0x00, 0x00];

#[test]
fn checksum_is_sha256_of_bytecode() {
    let checksum = Checksum::generate(&[0x68, 0x69, 0x6a]);
    let expected: [u8; 32] = [
        0x72, 0x2c, 0x8c, 0x99, 0x3f, 0xd7, 0x5a, 0x76, 0x27, 0xd6, 0x9e, 0xd9, 0x41, 0x34, 0x4f,
        0xe2, 0xa1, 0x42, 0x3a, 0x3e, 0x75, 0xef, 0xd3, 0xe6, 0x77, 0x8a, 0x14, 0x28, 0x84, 0x22,
        0x71, 0x04,
    ];
    assert_eq!(checksum.as_slice(), &expected[..]);
}

#[test]
fn checksum_from_slice_checks_length() {
    assert!(matches!(Checksum::from_slice(&[0u8; 31]), Err(ErrorKind::ArgumentError)));
    assert!(matches!(Checksum::from_slice(&[0u8; 33]), Err(ErrorKind::ArgumentError)));
    let c = Checksum::from_slice(&[7u8; 32]).unwrap();
    assert_eq!(c.to_vec(), vec![7u8; 32]);
}

#[test]
fn save_is_stable_and_load_is_identical() {
    let mut cache: ModuleCache<u32> = ModuleCache::new(1024);
    let first = cache.save_wasm(MINIMAL_MODULE);
    let second = cache.save_wasm(MINIMAL_MODULE);
    assert_eq!(first.to_vec(), second.to_vec());
    assert_eq!(cache.code_count(), 1);
    let loaded = cache.load_wasm(&first).unwrap();
    assert_eq!(loaded, MINIMAL_MODULE.to_vec());
}

#[test]
fn save_of_other_code_adds_an_entry() {
    let mut cache: ModuleCache<u32> = ModuleCache::new(1024);
    let a = cache.save_wasm(MINIMAL_MODULE);
    let b = cache.save_wasm(b"other code");
    assert!(!a.same_as(&b));
    assert_eq!(cache.code_count(), 2);
    assert_eq!(cache.load_wasm(&b).unwrap(), b"other code".to_vec());
}

#[test]
fn load_of_unknown_checksum_is_not_found() {
    let cache: ModuleCache<u32> = ModuleCache::new(1024);
    let unknown = Checksum::generate(b"never saved");
    assert!(matches!(cache.load_wasm(&unknown), Err(ErrorKind::NotFound)));
}

#[test]
fn pin_then_unpin_twice_succeeds() {
    let mut cache: ModuleCache<u32> = ModuleCache::new(1024);
    let c = cache.save_wasm(MINIMAL_MODULE);
    assert!(cache.pin(&c, 1, 100).is_ok());
    assert!(cache.is_pinned(&c));
    cache.unpin(&c);
    assert!(!cache.is_pinned(&c));
    cache.unpin(&c);
    assert!(!cache.is_pinned(&c));
    assert_eq!(cache.code_count(), 1);
}

#[test]
fn pin_twice_has_no_effect() {
    let mut cache: ModuleCache<u32> = ModuleCache::new(1024);
    let c = cache.save_wasm(MINIMAL_MODULE);
    assert!(cache.pin(&c, 1, 100).is_ok());
    assert!(cache.pin(&c, 2, 100).is_ok());
    assert_eq!(cache.get_module(&c), Some(1));
}

#[test]
fn pin_of_unknown_code_is_not_found() {
    let mut cache: ModuleCache<u32> = ModuleCache::new(1024);
    let unknown = Checksum::generate(b"never saved");
    assert!(matches!(cache.pin(&unknown, 1, 10), Err(ErrorKind::NotFound)));
    assert!(!cache.is_pinned(&unknown));
}

#[test]
fn unpin_of_unknown_checksum_is_a_no_op() {
    let mut cache: ModuleCache<u32> = ModuleCache::new(1024);
    let c = cache.save_wasm(MINIMAL_MODULE);
    cache.store_module(&c, 5, 10);
    let unknown = Checksum::generate(b"never saved");
    cache.unpin(&unknown);
    assert!(cache.is_recent(&c));
    assert_eq!(cache.memory_usage(), 10);
    assert_eq!(cache.code_count(), 1);
}

#[test]
fn least_recently_used_module_leaves_first() {
    let mut cache: ModuleCache<u32> = ModuleCache::new(10);
    let a = cache.save_wasm(b"a");
    let b = cache.save_wasm(b"b");
    let c = cache.save_wasm(b"c");
    let d = cache.save_wasm(b"d");
    cache.store_module(&a, 1, 4);
    cache.store_module(&b, 2, 4);
    cache.store_module(&c, 3, 4);
    assert!(!cache.is_recent(&a));
    assert!(cache.is_recent(&b) && cache.is_recent(&c));
    assert_eq!(cache.memory_usage(), 8);
    // b becomes the most recently used
    assert_eq!(cache.get_module(&b), Some(2));
    cache.store_module(&d, 4, 4);
    assert!(!cache.is_recent(&c));
    assert!(cache.is_recent(&b) && cache.is_recent(&d));
    assert_eq!(cache.get_module(&a), None);
}

#[test]
fn pinned_module_is_never_evicted() {
    let mut cache: ModuleCache<u32> = ModuleCache::new(8);
    let a = cache.save_wasm(b"a");
    let b = cache.save_wasm(b"b");
    let c = cache.save_wasm(b"c");
    cache.store_module(&a, 1, 4);
    assert!(cache.pin(&a, 9, 4).is_ok());
    // the module in memory is the one that is pinned
    assert!(!cache.is_recent(&a));
    assert_eq!(cache.memory_usage(), 0);
    cache.store_module(&b, 2, 8);
    cache.store_module(&c, 3, 8);
    assert!(cache.is_pinned(&a));
    assert_eq!(cache.get_module(&a), Some(1));
    assert!(!cache.is_recent(&b));
    assert!(cache.is_recent(&c));
}

#[test]
fn module_larger_than_the_limit_is_not_kept() {
    let mut cache: ModuleCache<u32> = ModuleCache::new(8);
    let a = cache.save_wasm(b"a");
    cache.store_module(&a, 1, 9);
    assert!(!cache.is_recent(&a));
    assert_eq!(cache.memory_usage(), 0);
    assert_eq!(cache.get_module(&a), None);
}

#[test]
fn unpin_of_saved_but_unpinned_code_is_a_no_op() {
    let mut cache: ModuleCache<u32> = ModuleCache::new(1024);
    let c = cache.save_wasm(MINIMAL_MODULE);
    assert_eq!(c.as_slice().len(), 32);
    cache.unpin(&c);
    assert!(!cache.is_pinned(&c));
    assert_eq!(cache.load_wasm(&c).unwrap(), MINIMAL_MODULE.to_vec());
}
