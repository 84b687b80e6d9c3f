//! The host imports over the slot ABI: arguments read from `sp + 8` on,
//! results written to the slots after them.

use wasabi::js::{load_value, Value};
use wasabi::mem::Mem;
use wasabi::shared_state::{HostError, LoopStep, SharedState};

fn state_with_mem() -> SharedState {
    let mut ss = SharedState::new();
    ss.mem = Mem::with_len(8192);
    ss
}

#[test]
fn schedule_and_clear_timeout() {
    let mut ss = state_with_mem();
    let sp = 64;
    ss.mem.set_i64(sp + 8, 50).unwrap();
    ss.schedule_timeout_event(sp).unwrap();
    let id = ss.mem.get_i32(sp + 16).unwrap();
    assert_eq!(id, 0);
    assert_eq!(ss.timeout_heap.entries.len(), 1);

    // cancelling marks the id dead; the entry leaves on the next clean
    ss.mem.set_i32(sp + 8, id).unwrap();
    ss.clear_timeout_event(sp).unwrap();
    ss.timeout_heap.clean_timeouts();
    assert!(ss.timeout_heap.is_empty());
}

#[test]
fn wasm_exit_sets_flag_and_reports_code() {
    let mut ss = state_with_mem();
    let sp = 64;
    ss.mem.set_i32(sp + 8, 7).unwrap();
    assert_eq!(ss.wasm_exit(sp).unwrap(), 7);
    assert!(ss.exited);
    // the driver's next pass reports done, and exits with the code
    assert_eq!(ss.process_event_loop(vec![], 0).unwrap(), LoopStep::Exit);
}

#[test]
fn wasm_write_hands_back_the_text() {
    let mut ss = state_with_mem();
    let sp = 64;
    ss.mem.write_bytes(600, b"hi there\n").unwrap();
    ss.mem.set_i32(sp + 16, 600).unwrap();
    ss.mem.set_i32(sp + 24, 9).unwrap();
    assert_eq!(ss.wasm_write(sp).unwrap(), "hi there\n");
}

#[test]
fn nanotime_and_walltime_write_clock_readings() {
    let mut ss = state_with_mem();
    ss.nanotime(64).unwrap();
    assert!(ss.mem.get_i64(72).unwrap() >= 0);
    ss.walltime(128).unwrap();
    assert!(ss.mem.get_i64(136).unwrap() >= 0);
    let nanos = ss.mem.get_i32(144).unwrap();
    assert!(nanos >= 0 && nanos < 1_000_000_000);
}

#[test]
fn get_random_data_fills_the_range() {
    let mut ss = state_with_mem();
    let sp = 64;
    ss.mem.set_i32(sp + 8, 1024).unwrap();
    ss.mem.set_i32(sp + 16, 32).unwrap();
    ss.get_random_data(sp).unwrap();
    let filled = ss.mem.read_bytes(1024, 32).unwrap();
    // a CSPRNG producing 32 zero bytes is beyond unlikely
    assert_ne!(filled, vec![0u8; 32]);
    // the neighbouring bytes stay untouched
    assert_eq!(ss.mem.read_bytes(1056, 4).unwrap(), vec![0u8; 4]);
}

#[test]
fn string_val_interns_and_stores_handle() {
    let mut ss = state_with_mem();
    let sp = 64;
    ss.mem.write_bytes(700, b"query").unwrap();
    ss.mem.set_i32(sp + 8, 700).unwrap();
    ss.mem.set_i32(sp + 16, 5).unwrap();
    ss.string_val(sp).unwrap();
    let slot = ss.mem.read_bytes((sp + 24) as usize, 8).unwrap();
    let (handle, is_ref) = load_value(&slot);
    assert!(is_ref);
    match ss.js.slab_get(handle).unwrap() {
        Value::String(s) => assert_eq!(s, "query"),
        _ => panic!("stringVal should intern a string"),
    }
}

#[test]
fn value_get_reads_interned_properties() {
    let mut ss = state_with_mem();
    let sp = 64;
    // target: the global object (handle 5), key: the interned name "fs"
    ss.mem.write_bytes((sp + 8) as usize, &wasabi::js::store_value((5, true))).unwrap();
    ss.mem.write_bytes(800, b"fs").unwrap();
    ss.mem.set_i32(sp + 16, 800).unwrap();
    ss.mem.set_i32(sp + 24, 2).unwrap();
    ss.value_get(sp).unwrap();
    let slot = ss.mem.read_bytes((sp + 32) as usize, 8).unwrap();
    assert_eq!(load_value(&slot), (9, true));
}

#[test]
fn value_get_rejects_unknown_names() {
    let mut ss = state_with_mem();
    let sp = 64;
    ss.mem.write_bytes((sp + 8) as usize, &wasabi::js::store_value((5, true))).unwrap();
    ss.mem.write_bytes(800, b"nonesuch").unwrap();
    ss.mem.set_i32(sp + 16, 800).unwrap();
    ss.mem.set_i32(sp + 24, 8).unwrap();
    assert_eq!(ss.value_get(sp), Err(HostError::TypeMismatch));
}

#[test]
fn value_set_updates_the_object() {
    let mut ss = state_with_mem();
    let sp = 64;
    // this._pendingEvent = null (handle 2)
    ss.mem.write_bytes((sp + 8) as usize, &wasabi::js::store_value((7, true))).unwrap();
    ss.mem.write_bytes(800, b"_pendingEvent").unwrap();
    ss.mem.set_i32(sp + 16, 800).unwrap();
    ss.mem.set_i32(sp + 24, 13).unwrap();
    ss.mem.write_bytes((sp + 32) as usize, &wasabi::js::store_value((2, true))).unwrap();
    ss.value_set(sp).unwrap();
    assert_eq!(ss.js.reflect_get(7, "_pendingEvent"), Some((2, true)));
}

#[test]
fn value_index_and_length() {
    let mut ss = state_with_mem();
    let arr = ss.js.add_array(5, "scratch", vec![(2, true), (9, false)]).unwrap();
    let sp = 64;
    ss.mem.write_bytes((sp + 8) as usize, &wasabi::js::store_value((arr, true))).unwrap();
    ss.mem.set_i64(sp + 16, 1).unwrap();
    ss.value_index(sp).unwrap();
    let slot = ss.mem.read_bytes((sp + 24) as usize, 8).unwrap();
    assert_eq!(load_value(&slot), (9, false));

    ss.value_length(sp).unwrap();
    assert_eq!(ss.mem.get_i64(sp + 16).unwrap(), 2);
}

#[test]
fn prepare_and_load_bytes() {
    let mut ss = state_with_mem();
    let reference = ss.store_value_bytes(b"abcd".to_vec());
    let sp = 64;
    ss.mem.set_i32(sp + 8, reference).unwrap();
    ss.prepare_bytes(sp).unwrap();
    assert_eq!(ss.mem.get_i64(sp + 16).unwrap(), 4);

    ss.mem.set_i32(sp + 16, 900).unwrap();
    ss.mem.set_i32(sp + 24, 4).unwrap();
    ss.load_bytes(sp).unwrap();
    assert_eq!(ss.mem.read_bytes(900, 4).unwrap(), b"abcd".to_vec());
}

#[test]
fn prepare_and_load_string() {
    let mut ss = state_with_mem();
    let reference = ss.js.slab_add(Value::String("veldt".to_owned()));
    let sp = 64;
    ss.mem.set_i32(sp + 8, reference as i32).unwrap();
    ss.value_prepare_string(sp).unwrap();
    assert_eq!(ss.mem.get_i64(sp + 16).unwrap(), reference);
    assert_eq!(ss.mem.get_i64(sp + 24).unwrap(), 5);

    ss.mem.set_i32(sp + 16, 950).unwrap();
    ss.mem.set_i32(sp + 24, 5).unwrap();
    ss.value_load_string(sp).unwrap();
    assert_eq!(ss.mem.read_bytes(950, 5).unwrap(), b"veldt".to_vec());
}

#[test]
fn set_usize_result_encodes_both_arms() {
    let mut ss = state_with_mem();
    ss.set_usize_result(64, Ok(3)).unwrap();
    assert_eq!(ss.mem.get_i32(64).unwrap(), 3);
    assert_eq!(ss.mem.read_bytes(68, 1).unwrap(), vec![1]);

    let before = ss.js.slab.len();
    ss.set_usize_result(80, Err("connection refused".to_owned())).unwrap();
    assert_eq!(ss.mem.read_bytes(84, 1).unwrap(), vec![0]);
    let written = ss.mem.get_i32(80).unwrap();
    assert_eq!(written as usize, before);
    match ss.js.slab_get(written as i64).unwrap() {
        Value::Bytes(b) => assert_eq!(b, &b"connection refused".to_vec()),
        _ => panic!("error text should be stored as bytes"),
    }
}

#[test]
fn value_set_on_a_non_object_stores_an_error() {
    let mut ss = state_with_mem();
    let sp = 64;
    // target: handle 0, the interned NaN, which is no object
    ss.mem.write_bytes((sp + 8) as usize, &wasabi::js::store_value((0, true))).unwrap();
    ss.mem.write_bytes(800, b"_pendingEvent").unwrap();
    ss.mem.set_i32(sp + 16, 800).unwrap();
    ss.mem.set_i32(sp + 24, 13).unwrap();
    ss.mem.write_bytes((sp + 32) as usize, &wasabi::js::store_value((2, true))).unwrap();
    let before = ss.js.slab.len();
    ss.value_set(sp).unwrap();
    // the failure is reported through an error text stored for the guest
    let written = ss.mem.get_i32(sp).unwrap();
    assert_eq!(written as usize, before);
    assert!(matches!(ss.js.slab_get(written as i64), Some(Value::Bytes(_))));
}

#[test]
fn value_call_routes_date_timezone() {
    let mut ss = state_with_mem();
    // target: the Date object; method: its interned getTimezoneOffset
    let date = ss.js.reflect_get(5, "Date").unwrap().0;
    let sp = 64;
    ss.mem.write_bytes((sp + 8) as usize, &wasabi::js::store_value((date, true))).unwrap();
    ss.mem.write_bytes(800, b"getTimezoneOffset").unwrap();
    ss.mem.set_i32(sp + 16, 800).unwrap();
    ss.mem.set_i32(sp + 24, 17).unwrap();
    // empty argument slice
    ss.mem.set_i32(sp + 32, 1024).unwrap();
    ss.mem.set_i32(sp + 40, 0).unwrap();
    let req = ss.value_call(sp).unwrap();
    assert!(req.is_none());
    let slot = ss.mem.read_bytes((sp + 56) as usize, 8).unwrap();
    assert_eq!(load_value(&slot), (0, false));
    assert_eq!(ss.mem.read_bytes((sp + 64) as usize, 1).unwrap(), vec![1]);
}
