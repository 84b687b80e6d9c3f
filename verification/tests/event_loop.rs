//! The driver's event loop over the shared state: response handling,
//! pending-event delivery, timeout decisions, and the synthetic exit event.

use wasabi::io::{ErrorKind, IoRequest, NetEvent, Response};
use wasabi::js::Value;
use wasabi::shared_state::{LoopStep, SharedState, WaitKind};

fn prop(state: &SharedState, handle: i64, key: &str) -> Option<(i64, bool)> {
    state.js.reflect_get(handle, key)
}

#[test]
fn test_event_loop_empty() {
    let mut ss = SharedState::new();

    // no events, so the loop queues one pending event with id 0
    let step = ss.process_event_loop(vec![], 0).unwrap();
    assert_eq!(step, LoopStep::Invoke);
    assert_eq!(ss.call_queue.len(), 1);
    let reference = ss.call_queue.pop_front().unwrap();

    if let Some(Value::Object { name, .. }) = ss.js.slab_get(reference) {
        assert_eq!(name, "pending_event");
    } else {
        panic!("ref should be an object");
    }
    assert_eq!(prop(&ss, reference, "id"), Some((0, false)));
    // the synthetic event carries a null result and an empty args array
    assert_eq!(prop(&ss, reference, "result"), Some((2, true)));
    let args = prop(&ss, reference, "args").unwrap().0;
    assert_eq!(ss.js.value_length(args), Some(0));

    // now the instance has exited, so the next pass reports done
    let step = ss.process_event_loop(vec![], 0).unwrap();
    assert_eq!(step, LoopStep::Exit);
}

#[test]
fn test_event_loop_only_callback() {
    let mut ss = SharedState::new();
    ss.timeout_heap.add_at(2);

    let step = ss.process_event_loop(vec![], 10).unwrap();
    assert_eq!(step, LoopStep::Invoke);
    assert!(ss.timeout_heap.is_empty());

    ss.timeout_heap.add_at(15);
    let to_cancel_id = ss.timeout_heap.add_at(12);
    ss.timeout_heap.add_at(5);

    let step = ss.process_event_loop(vec![], 6).unwrap();
    assert_eq!(step, LoopStep::Invoke);

    ss.add_pending_event(4, vec![]).unwrap();
    let step = ss.process_event_loop(vec![], 6).unwrap();
    assert_eq!(step, LoopStep::Invoke);
    assert!(ss.call_queue.is_empty());

    ss.timeout_heap.remove(to_cancel_id);

    // only the cancelled and the fifteen-unit timeout remain: the driver
    // is told to sleep out the remaining two units before resuming
    let step = ss.process_event_loop(vec![], 13).unwrap();
    assert_eq!(step, LoopStep::InvokeAfter(2));
}

#[test]
fn pending_event_is_delivered_to_this() {
    let mut ss = SharedState::new();
    ss.add_pending_event(15, vec![(2, true), (12, false)]).unwrap();
    let pe = ss.call_queue[0];

    assert_eq!(prop(&ss, pe, "id"), Some((15, false)));
    assert_eq!(prop(&ss, pe, "result"), Some((2, true)));
    let args = prop(&ss, pe, "args").unwrap();
    assert!(args.1);
    assert_eq!(ss.js.reflect_get_index(args.0, 1), Some((12, false)));

    let step = ss.process_event_loop(vec![], 0).unwrap();
    assert_eq!(step, LoopStep::Invoke);
    assert!(ss.call_queue.is_empty());
    assert_eq!(prop(&ss, 7, "_pendingEvent"), Some((pe, true)));
}

#[test]
fn responses_attach_results_and_queue_callbacks() {
    let mut ss = SharedState::new();
    ss.net_active = true;
    // a callback object the guest would have registered
    let cb = ss.js.slab_add(Value::Object { name: "wrappedFunc".to_owned(), values: Vec::new() });

    let step = ss
        .process_event_loop(vec![Response::Written { id: cb, len: 14 }], 0)
        .unwrap();
    assert_eq!(step, LoopStep::Invoke);
    // the callback was queued and immediately delivered to the guest
    assert!(ss.call_queue.is_empty());
    assert_eq!(prop(&ss, 7, "_pendingEvent"), Some((cb, true)));
    assert_eq!(prop(&ss, cb, "result"), Some((2, true)));
    let args = prop(&ss, cb, "args").unwrap().0;
    // the write callback sees [null, 14]
    assert_eq!(ss.js.value_length(args), Some(2));
    assert_eq!(ss.js.reflect_get_index(args, 0), Some((2, true)));
    assert_eq!(ss.js.reflect_get_index(args, 1), Some((14, false)));
}

#[test]
fn error_responses_pick_the_matching_error_object() {
    let mut ss = SharedState::new();
    ss.net_active = true;
    let cb = ss.js.slab_add(Value::Object { name: "wrappedFunc".to_owned(), values: Vec::new() });
    ss.process_event_loop(
        vec![Response::Error { id: cb, msg: "missing".to_owned(), kind: ErrorKind::NotFound }],
        0,
    )
    .unwrap();
    let args = prop(&ss, cb, "args").unwrap().0;
    assert_eq!(
        ss.js.reflect_get_index(args, 0),
        Some((ss.js.error_not_found, true))
    );

    let cb2 = ss.js.slab_add(Value::Object { name: "wrappedFunc".to_owned(), values: Vec::new() });
    let mut ss2 = ss;
    ss2.call_queue.clear();
    ss2.process_event_loop(
        vec![Response::Error { id: cb2, msg: "there".to_owned(), kind: ErrorKind::AlreadyExists }],
        0,
    )
    .unwrap();
    let args = prop(&ss2, cb2, "args").unwrap().0;
    assert_eq!(
        ss2.js.reflect_get_index(args, 0),
        Some((ss2.js.error_exists, true))
    );
}

#[test]
fn readiness_events_build_one_network_callback() {
    let mut ss = SharedState::new();
    ss.net_active = true;
    ss.net_callback_id = 77;
    let event = NetEvent { token: 2, readable: true, writable: false, hup: false, error: false };
    let step = ss.process_event_loop(vec![Response::Event(event)], 0).unwrap();
    assert_eq!(step, LoopStep::Invoke);
    // the bundled network event was queued and delivered right away
    assert!(ss.call_queue.is_empty());
    let pe = prop(&ss, 7, "_pendingEvent").unwrap().0;
    assert_eq!(prop(&ss, pe, "id"), Some((77, false)));
    let args = prop(&ss, pe, "args").unwrap().0;
    assert_eq!(ss.js.reflect_get_index(args, 0), Some((2, false)));
    assert_eq!(ss.js.reflect_get_index(args, 1), Some((1, false)));
}

#[test]
fn read_response_lands_in_guest_memory() {
    let mut ss = SharedState::new();
    ss.mem = wasabi::mem::Mem::with_len(256);
    ss.net_active = true;
    let cb = ss.js.slab_add(Value::Object { name: "wrappedFunc".to_owned(), values: Vec::new() });
    ss.process_event_loop(
        vec![Response::Read { id: cb, len: 3, buf: b"abcdef".to_vec(), address: 100 }],
        0,
    )
    .unwrap();
    assert_eq!(ss.mem.read_bytes(100, 3).unwrap(), b"abc".to_vec());
    assert_eq!(ss.mem.read_bytes(103, 1).unwrap(), vec![0]);
}

#[test]
fn wait_request_reflects_queue_and_heap() {
    let mut ss = SharedState::new();
    assert_eq!(ss.wait_request(0), WaitKind::Block);
    ss.timeout_heap.add_at(40);
    assert_eq!(ss.wait_request(10), WaitKind::Timeout(30));
    ss.add_pending_event(1, vec![]).unwrap();
    assert_eq!(ss.wait_request(10), WaitKind::NoWait);
}

#[test]
fn fs_write_route_produces_stdout_request() {
    let mut ss = SharedState::new();
    ss.mem = wasabi::mem::Mem::with_len(8192);
    let message = b"Hello, world!\n";
    ss.mem.write_bytes(4096, message).unwrap();
    let buffer = ss.js.slab_add(Value::Memory { address: 4096, len: 14 });
    // a callback the guest made through _makeFuncWrapper
    let (cb, _) = ss
        .reflect_apply(20, 7, vec![(42, false)])
        .unwrap()
        .0;
    // fs.write(fd, buf, offset, len, pos, callback): write is 10, fs is 9
    let args = vec![(1, false), (buffer, true), (1, true), (14, false), (2, true), (cb, true)];
    let (result, req) = ss.reflect_apply(10, 9, args).unwrap();
    assert_eq!(result, (14, false));
    match req {
        Some(IoRequest::Stdout { id, buf }) => {
            assert_eq!(id, cb);
            assert_eq!(buf, message.to_vec());
        }
        _ => panic!("fs.write should submit a stdout request"),
    }

    // the completion callback observes [null, 14]
    ss.net_active = true;
    ss.process_event_loop(vec![Response::Written { id: cb, len: 14 }], 0).unwrap();
    let args = prop(&ss, cb, "args").unwrap().0;
    assert_eq!(ss.js.reflect_get_index(args, 0), Some((2, true)));
    assert_eq!(ss.js.reflect_get_index(args, 1), Some((14, false)));
}

#[test]
fn unknown_reflect_apply_route_is_fatal() {
    let mut ss = SharedState::new();
    // (process, global) is no emulated method route
    let process = ss.js.reflect_get(5, "process").unwrap().0;
    assert!(ss.reflect_apply(process, 5, vec![]).is_err());
}

#[test]
fn net_listener_register_stores_callback() {
    let mut ss = SharedState::new();
    // construct a net_listener instance and call register on it
    let class = ss.js.reflect_get(5, "net_listener").unwrap().0;
    let (nl, _) = ss.js.reflect_construct(class, vec![]).unwrap();
    let register = ss.js.reflect_get(nl, "register").unwrap().0;
    let cb = ss
        .js
        .slab_add(Value::Object { name: "wrappedFunc".to_owned(), values: Vec::new() });
    ss.js.add_object_value(cb, "id", (123, false)).unwrap();
    let (res, req) = ss.reflect_apply(register, nl, vec![(cb, true)]).unwrap();
    assert_eq!(res, (0, true));
    assert!(req.is_none());
    assert_eq!(ss.net_callback_id, 123);
}

#[test]
fn lookup_ip_route_and_response() {
    let mut ss = SharedState::new();
    let host = ss.js.slab_add(Value::String("localhost".to_owned()));
    let cb = ss.js.slab_add(Value::Object { name: "wrappedFunc".to_owned(), values: Vec::new() });
    // wasabi.lookup_ip(host, callback): lookup_ip is 34, wasabi is 33
    let (res, req) = ss.reflect_apply(34, 33, vec![(host, true), (cb, true)]).unwrap();
    assert_eq!(res, (cb, true));
    match req {
        Some(IoRequest::LookupIp { id, host }) => {
            assert_eq!(id, cb);
            assert_eq!(host, "localhost");
        }
        _ => panic!("lookup_ip should submit a resolver request"),
    }

    // a resolved response hands the guest a byte-array-array of addresses
    ss.net_active = true;
    ss.process_event_loop(vec![Response::Ips { id: cb, ips: vec![(127, 0, 0, 1)] }], 0).unwrap();
    let args = prop(&ss, cb, "args").unwrap().0;
    assert_eq!(ss.js.reflect_get_index(args, 0), Some((2, true)));
    let table_ref = ss.js.reflect_get_index(args, 1).unwrap().0;
    if let Some(Value::Bytes(table)) = ss.js.slab_get(table_ref) {
        assert_eq!(table.len(), 4);
        let first = i32::from(table[0])
            | (i32::from(table[1]) << 8)
            | (i32::from(table[2]) << 16)
            | (i32::from(table[3]) << 24);
        if let Some(Value::Bytes(octets)) = ss.js.slab_get(first as i64) {
            assert_eq!(octets, &vec![127, 0, 0, 1]);
        } else {
            panic!("table entry should point at the address bytes");
        }
    } else {
        panic!("args should carry the handle table");
    }
}
