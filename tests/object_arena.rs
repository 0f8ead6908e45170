use gg_sdk::arena::{CELL_SIZE, KV_CELL_SIZE};
use gg_sdk::object::{map_find, map_get};
use gg_sdk::{Arena, Error, Kv, Span, Value};

fn kv(key: &str, val: Value) -> Kv {
    Kv::new(key.to_string(), val)
}

fn sample_map() -> Vec<Kv> {
    vec![kv("a", Value::I64(1)), kv("b", Value::Buf(b"x".to_vec()))]
}

#[test]
fn map_lookup_takes_first_match() {
    let pairs = vec![
        kv("k", Value::I64(1)),
        kv("other", Value::Null),
        kv("k", Value::I64(2)),
    ];
    assert_eq!(map_find(&pairs, "k"), Some(0));
    assert_eq!(map_find(&pairs, "other"), Some(1));
    assert_eq!(map_find(&pairs, "missing"), None);
    match map_get(&pairs, "k") {
        Some(Value::I64(n)) => assert_eq!(*n, 1),
        other => panic!("unexpected {:?}", other),
    }
    assert!(map_get(&[], "k").is_none());
}

#[test]
fn deep_copy_keeps_the_tree() {
    let v = Value::List(vec![
        Value::KvMap(sample_map()),
        Value::Bool(true),
        Value::F64Bits(1.5f64.to_bits()),
    ]);
    let c = v.deep_copy();
    assert_eq!(format!("{:?}", c), format!("{:?}", v));
}

#[test]
fn arena_allocations_stay_in_bounds() {
    let mut a = Arena::init(vec![0u8; 20]);
    assert_eq!(a.capacity(), 20);
    assert_eq!(a.allocate(3, 1), Ok(Span { start: 0, end: 3 }));
    assert_eq!(a.allocate(4, 8), Ok(Span { start: 8, end: 12 }));
    assert_eq!(a.used(), 12);
    // 8 more bytes aligned to 8 would end at 24 > 20
    assert_eq!(a.allocate(9, 8), Err(Error::OutOfMemory));
    assert_eq!(a.used(), 12);
    assert_eq!(a.allocate(8, 4), Ok(Span { start: 12, end: 20 }));
    assert_eq!(a.allocate(1, 1), Err(Error::OutOfMemory));
    assert_eq!(a.allocate(0, 1), Ok(Span { start: 20, end: 20 }));
}

#[test]
fn arena_failure_keeps_earlier_bytes() {
    let mut a = Arena::init(vec![0u8; 6]);
    assert_eq!(a.put_bytes(&[1, 2, 3, 4]), Ok(Span { start: 0, end: 4 }));
    assert_eq!(a.put_bytes(&[9, 9, 9]), Err(Error::OutOfMemory));
    assert_eq!(a.used(), 4);
    assert_eq!(a.put_bytes(&[5, 6]), Ok(Span { start: 4, end: 6 }));
    assert_eq!(a.into_buffer(), vec![1, 2, 3, 4, 5, 6]);
}

#[test]
fn arena_request_larger_than_buffer_fails() {
    let mut a = Arena::init(vec![0u8; 4]);
    assert_eq!(a.allocate(usize::MAX, 1), Err(Error::OutOfMemory));
    assert_eq!(a.allocate(5, 1), Err(Error::OutOfMemory));
    assert_eq!(a.used(), 0);
}

#[test]
fn materialize_map_layout() {
    // two entry cells, then "a", then "b" and its one byte
    let needed = 2 * KV_CELL_SIZE + 1 + 1 + 1;
    assert_eq!(needed, 67);
    let v = Value::KvMap(sample_map());
    let mut a = Arena::init(vec![0u8; needed]);
    let c = a.materialize(&v).unwrap();
    assert_eq!(a.used(), needed);
    assert_eq!(format!("{:?}", c), format!("{:?}", v));
    let bytes = a.into_buffer();
    assert_eq!(bytes[64], b'a');
    assert_eq!(bytes[65], b'b');
    assert_eq!(bytes[66], b'x');

    let mut small = Arena::init(vec![0u8; needed - 1]);
    assert!(matches!(small.materialize(&v), Err(Error::OutOfMemory)));
}

#[test]
fn materialize_list_aligns_cells() {
    let v = Value::List(vec![Value::Buf(vec![7, 8, 9]), Value::I64(-4)]);
    let mut a = Arena::init(vec![0u8; 64]);
    a.put_bytes(&[1, 2, 3]).unwrap();
    let c = a.materialize(&v).unwrap();
    // cells start at 8, take 2 * 16 bytes, then the buffer's 3 bytes
    assert_eq!(a.used(), 8 + 2 * CELL_SIZE + 3);
    assert_eq!(format!("{:?}", c), format!("{:?}", v));
    let bytes = a.into_buffer();
    assert_eq!(&bytes[40..43], &[7, 8, 9]);
}

#[test]
fn materialize_scalar_takes_nothing() {
    let mut a = Arena::init(Vec::new());
    assert!(matches!(a.materialize(&Value::Null), Ok(Value::Null)));
    assert!(matches!(a.materialize(&Value::Bool(false)), Ok(Value::Bool(false))));
    assert!(matches!(a.materialize(&Value::Buf(vec![1])), Err(Error::OutOfMemory)));
    assert_eq!(a.used(), 0);
}
