//! The shared-state value plumbing and the reduced scheduler instance.

use wasabi::js::{store_value, Value};
use wasabi::mem::Mem;
use wasabi::shared_state::SharedState;
use wasabi::Wasabi;

#[test]
fn empty_memory_rejects_every_access() {
    let mem = Mem::new();
    assert!(mem.get_i32(0).is_err());
    assert!(mem.get_i64(0).is_err());
    assert_eq!(mem.len(), 0);
}

#[test]
fn store_string_places_handle_and_bytes() {
    let mut ss = SharedState::new();
    ss.mem = Mem::with_len(256);
    let before = ss.js.slab.len();
    ss.store_string(16, "oops".to_string()).unwrap();
    let handle = ss.mem.get_i32(16).unwrap();
    assert_eq!(handle as usize, before);
    match ss.js.slab_get(handle as i64).unwrap() {
        Value::Bytes(b) => assert_eq!(b, &b"oops".to_vec()),
        _ => panic!("stored string should be bytes"),
    }
}

#[test]
fn load_slice_of_values_decodes_each_slot() {
    let mut ss = SharedState::new();
    ss.mem = Mem::with_len(512);
    // descriptor at 0: slots at 64, two of them
    ss.mem.set_i32(0, 64).unwrap();
    ss.mem.set_i32(8, 2).unwrap();
    ss.mem.write_bytes(64, &store_value((7, true))).unwrap();
    ss.mem.write_bytes(72, &store_value((-3, false))).unwrap();
    let values = ss.load_slice_of_values(0).unwrap();
    assert_eq!(values, vec![(7, true), (-3, false)]);
}

#[test]
fn byte_array_array_builds_a_handle_table() {
    let mut ss = SharedState::new();
    ss.mem = Mem::with_len(64);
    let base = ss.js.slab.len() as i64;
    ss.set_byte_array_array(0, vec![vec![1, 2], vec![3]]).unwrap();
    let table_ref = ss.mem.get_i32(0).unwrap() as i64;
    assert_eq!(table_ref, base + 2);
    match ss.js.slab_get(table_ref).unwrap() {
        Value::Bytes(table) => {
            assert_eq!(table.len(), 8);
            assert_eq!(i64::from(table[0]), base);
            assert_eq!(i64::from(table[4]), base + 1);
        }
        _ => panic!("table should be bytes"),
    }
    assert!(matches!(ss.js.slab_get(base), Some(Value::Bytes(b)) if b == &vec![1, 2]));
    assert!(matches!(ss.js.slab_get(base + 1), Some(Value::Bytes(b)) if b == &vec![3]));
}

#[test]
fn wasabi_scheduler_pops_in_deadline_order() {
    let mut w = Wasabi::new();
    assert_eq!(w.process_event_loop(0), None);
    w.timeout_heap.add_at(30);
    w.timeout_heap.add_at(20);
    // the earlier deadline surfaces first, with the remaining wait
    assert_eq!(w.process_event_loop(5), Some(15));
    assert_eq!(w.process_event_loop(25), Some(5));
    assert_eq!(w.process_event_loop(25), None);
}
