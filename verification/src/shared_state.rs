//! The per-instance state every host call works on: the guest's memory,
//! the JS-value slab, the timeout heap, the pending-event queue, and the
//! flags the driver loop reads. One instance exists per guest module; the
//! driver owns it and host calls run on the driver's thread.

use std::collections::VecDeque;
use vstd::prelude::*;

use crate::bytes::spec_i32_le_bytes;
use crate::io::{spec_event_bits, spec_response_id, IoRequest, NetEvent, Response};
use crate::bytes::spec_u64_le_bytes;
use crate::js::{
    spec_load_slot, spec_obj_name, spec_obj_props, spec_store_slot, Js, JsError, Value,
};
use crate::mem::{spec_get_i32, spec_splice, Mem, MemError};
use crate::timeout_heap::TimeoutHeap;

verus! {

/// How a host call fails: the guest handed a bad address or string, named
/// a missing or wrongly-typed slab value, or asked for a route the host
/// does not emulate. All of these are fatal ABI violations; I/O failures
/// travel through `Response::Error` instead.
#[derive(Debug, Clone, Copy, PartialEq, Eq, Structural)]
pub enum HostError {
    InvalidAddress,
    InvalidString,
    NoSuchRef,
    NotAnObject,
    TypeMismatch,
    UnknownRoute,
}

impl HostError {
    /// The matching error for a failed memory access.
    pub fn from_mem(e: MemError) -> (r: HostError)
        ensures
            r == (match e {
                MemError::InvalidAddress => HostError::InvalidAddress,
                MemError::InvalidString => HostError::InvalidString,
            }),
    {
        match e {
            MemError::InvalidAddress => HostError::InvalidAddress,
            MemError::InvalidString => HostError::InvalidString,
        }
    }

    /// The matching error for a failed slab operation.
    pub fn from_js(e: JsError) -> (r: HostError)
        ensures
            r == (match e {
                JsError::NoSuchRef => HostError::NoSuchRef,
                JsError::NotAnObject => HostError::NotAnObject,
            }),
    {
        match e {
            JsError::NoSuchRef => HostError::NoSuchRef,
            JsError::NotAnObject => HostError::NotAnObject,
        }
    }
}

/// What the driver should do after one pass of the event loop.
#[derive(Debug, Clone, Copy, PartialEq, Eq, Structural)]
pub enum LoopStep {
    /// Stop: the guest has exited.
    Exit,
    /// Call the guest's resume entry now.
    Invoke,
    /// Sleep this many nanoseconds, then call resume.
    InvokeAfter(u64),
}

/// How the driver should wait for I/O before the next pass: block on the
/// response channel, block at most this many nanoseconds, or only drain
/// what is already there.
#[derive(Debug, Clone, Copy, PartialEq, Eq, Structural)]
pub enum WaitKind {
    Block,
    Timeout(u64),
    NoWait,
}

/// The shared state of one guest instance.
#[derive(Debug)]
pub struct SharedState {
    pub exited: bool,
    pub net_callback_id: i64,
    pub net_active: bool,
    pub timeout_heap: TimeoutHeap,
    pub call_queue: VecDeque<i64>,
    pub js: Js,
    pub mem: Mem,
}

/// The bytes of a string, UTF-8 encoded.
pub open spec fn spec_string_bytes(s: String) -> Seq<u8> {
    vstd::utf8::encode_utf8(s@)
}

/// Whether the `{array_ptr, _, count}` descriptor at `a` and every 8-byte
/// slot it points at lie inside the memory.
pub open spec fn spec_slice_ok(m: Seq<u8>, a: int) -> bool {
    let array = spec_get_i32(m, a) as int;
    let count = spec_get_i32(m, a + 8) as int;
    &&& 0 <= a && a + 8 <= i32::MAX
    &&& a + 16 <= m.len()
    &&& 0 <= array && 0 <= count
    &&& array + 8 * count <= m.len()
}

/// The tagged values the descriptor at `a` points at.
pub open spec fn spec_slice_at(m: Seq<u8>, a: int) -> Seq<(i64, bool)> {
    let array = spec_get_i32(m, a) as int;
    let count = spec_get_i32(m, a + 8) as int;
    Seq::new(count as nat, |n: int| spec_slot_at(m, array + 8 * n))
}

/// The tagged-slot value stored at offset `a` of memory `m`.
pub open spec fn spec_slot_at(m: Seq<u8>, a: int) -> (i64, bool) {
    spec_load_slot(
        crate::bytes::spec_u64_of_le(
            m[a],
            m[a + 1],
            m[a + 2],
            m[a + 3],
            m[a + 4],
            m[a + 5],
            m[a + 6],
            m[a + 7],
        ),
    )
}

/// The little-endian handle table that `set_byte_array_array` builds: four
/// bytes per stored byte-array, holding consecutive slab handles starting
/// at `base`.
pub open spec fn spec_ref_table(base: int, n: nat) -> Seq<u8>
    decreases n,
{
    if n == 0 {
        Seq::empty()
    } else {
        spec_ref_table(base, (n - 1) as nat) + spec_i32_le_bytes(((base + n) - 1) as i32)
    }
}


/// Whether the object `id` of `js` carries an `args` property pointing at
/// an array with exactly these items.
pub open spec fn spec_args_array(js: Js, id: i64, items: Seq<(i64, bool)>) -> bool {
    &&& 0 <= id < js.slab@.len()
    &&& js.slab@[id as int] is Object
    &&& spec_obj_props(js.slab@[id as int]).contains_key("args"@)
    &&& ({
        let h = spec_obj_props(js.slab@[id as int])["args"@];
        &&& h.1 == true
        &&& 0 <= h.0 < js.slab@.len()
        &&& js.slab@[h.0 as int] matches Value::Array(a) && a@ == items
    })
}

/// How many slab entries handling one response adds.
pub open spec fn spec_response_growth(r: &Response) -> int {
    match r {
        Response::Event(_) => 0,
        Response::Success { .. } => 1,
        Response::Written { .. } => 1,
        Response::FileRef { .. } => 1,
        Response::Read { .. } => 1,
        Response::Metadata { .. } => 3,
        Response::Ips { ips, .. } => ips@.len() as int + 2,
        Response::Error { kind, .. } => match kind {
            crate::io::ErrorKind::Other => 2,
            _ => 1,
        },
    }
}

/// How many slab entries handling these responses adds.
pub open spec fn spec_responses_growth(rs: Seq<Response>) -> int
    decreases rs.len(),
{
    if rs.len() == 0 {
        0
    } else {
        spec_responses_growth(rs.drop_last()) + spec_response_growth(&rs.last())
    }
}

proof fn lemma_responses_growth_nonneg(rs: Seq<Response>)
    ensures
        spec_responses_growth(rs) >= 0,
    decreases rs.len(),
{
    if rs.len() > 0 {
        lemma_responses_growth_nonneg(rs.drop_last());
    }
}

/// The batch's growth splits off its first response as well.
proof fn lemma_responses_growth_front(rs: Seq<Response>)
    requires
        rs.len() > 0,
    ensures
        spec_responses_growth(rs) == spec_response_growth(&rs[0]) + spec_responses_growth(
            rs.drop_first(),
        ),
    decreases rs.len(),
{
    if rs.len() == 1 {
        assert(rs.drop_last() =~= Seq::<Response>::empty());
        assert(rs.drop_first() =~= Seq::<Response>::empty());
    } else {
        lemma_responses_growth_front(rs.drop_last());
        assert(rs.drop_last().drop_first() =~= rs.drop_first().drop_last());
        assert(rs.drop_last()[0] == rs[0]);
        assert(rs.drop_first().last() == rs.last());
    }
}

/// The callback ids these responses queue, in arrival order.
pub open spec fn spec_queued_ids(rs: Seq<Response>) -> Seq<i64>
    decreases rs.len(),
{
    if rs.len() == 0 {
        Seq::empty()
    } else {
        spec_queued_ids(rs.drop_last()) + (match spec_response_id(rs.last()) {
            Some(id) => seq![id],
            None => Seq::<i64>::empty(),
        })
    }
}

/// The `(token, conditions)` pairs the readiness events among these
/// responses contribute to the bundled network callback, in arrival order.
pub open spec fn spec_event_args(rs: Seq<Response>) -> Seq<(i64, bool)>
    decreases rs.len(),
{
    if rs.len() == 0 {
        Seq::empty()
    } else {
        spec_event_args(rs.drop_last()) + (match rs.last() {
            Response::Event(e) => seq![
                ((e.token as i64), false),
                ((spec_event_bits(e) as i64), false),
            ],
            _ => Seq::<(i64, bool)>::empty(),
        })
    }
}

/// A response whose contributions are both empty does not exist: every
/// response either queues its callback id or contributes readiness args.
proof fn lemma_responses_contribute(rs: Seq<Response>)
    ensures
        (spec_queued_ids(rs).len() == 0 && spec_event_args(rs).len() == 0) ==> rs.len() == 0,
    decreases rs.len(),
{
    if rs.len() > 0 {
        match spec_response_id(rs.last()) {
            Some(id) => {
                assert(spec_queued_ids(rs).len() > 0);
            },
            None => {
                assert(rs.last() is Event);
                assert(spec_event_args(rs).len() > 0);
            },
        }
    }
}

/// Whether every response can be folded into the state: each callback id
/// names an object, and a read fits both its buffer and the memory.
pub open spec fn spec_response_ok(s: SharedState, r: Response) -> bool {
    match spec_response_id(r) {
        None => true,
        Some(id) => s.js.spec_is_object(id) && (r matches Response::Read {
            id: rid,
            len,
            buf,
            address,
        } ==> (len <= buf@.len() && address + len <= s.mem@.len())),
    }
}

/// `spec_response_ok` of every response in the batch.
pub open spec fn spec_responses_ok(s: SharedState, rs: Seq<Response>) -> bool {
    forall|k: int| 0 <= k < rs.len() ==> spec_response_ok(s, #[trigger] rs[k])
}


/// Whether the `(method name, object name)` pair names an emulated route
/// whose own argument and type conditions hold, so the dispatch is owed
/// success.
pub open spec fn spec_apply_ok(
    s: SharedState,
    target: i64,
    this_argument: i64,
    args: Seq<(i64, bool)>,
) -> bool {
    let tn = spec_obj_name(s.js.slab@[target as int]);
    let an = spec_obj_name(s.js.slab@[this_argument as int]);
    ||| (tn == "getTimezoneOffset"@ && an == "Date"@)
    ||| (tn == "register"@ && an == "net_listener"@ && args.len() >= 1 && s.js.spec_is_object(
        args[0].0,
    ) && spec_obj_props(s.js.slab@[args[0].0 as int]).contains_key("id"@))
    ||| (tn == "_makeFuncWrapper"@ && an == "this"@ && args.len() >= 1)
    ||| (tn == "getRandomValues"@ && an == "crypto"@ && args.len() >= 1 && 0 <= args[0].0
        < s.js.slab@.len() && (s.js.slab@[args[0].0 as int] matches Value::Memory {
        address,
        len,
    } && 0 <= address && 0 <= len && address + len <= s.mem@.len()))
    ||| (tn == "lookup_ip"@ && an == "wasabi"@ && args.len() >= 2 && 0 <= args[0].0
        < s.js.slab@.len() && s.js.slab@[args[0].0 as int] is String)
    ||| (tn == "isDirectory"@ && an == "fstat"@ && spec_obj_props(
        s.js.slab@[this_argument as int],
    ).contains_key("is_dir"@))
    ||| (tn == "fstat"@ && an == "fs"@ && args.len() >= 2)
    ||| (tn == "read"@ && an == "fs"@ && args.len() >= 6 && 0 <= args[1].0 < s.js.slab@.len()
        && s.js.slab@[args[1].0 as int] is Memory && 0 <= s.js.slab@[args[1].0 as int]
        ->Memory_address)
    ||| (tn == "open"@ && an == "fs"@ && args.len() >= 4 && 0 <= args[0].0 < s.js.slab@.len()
        && s.js.slab@[args[0].0 as int] is String)
    ||| (tn == "stat"@ && an == "fs"@ && args.len() >= 1 && 0 <= args[0].0 < s.js.slab@.len()
        && s.js.slab@[args[0].0 as int] is String)
    ||| (tn == "write"@ && an == "fs"@ && args.len() >= 6 && 0 <= args[1].0 < s.js.slab@.len()
        && (s.js.slab@[args[1].0 as int] matches Value::Memory { address, len } && 0 <= address
        && 0 <= len && address + len <= s.mem@.len()))
}

/// The tagged value an emulated route hands back when it succeeds.
pub open spec fn spec_apply_result(
    s: SharedState,
    target: i64,
    this_argument: i64,
    args: Seq<(i64, bool)>,
) -> (i64, bool) {
    let tn = spec_obj_name(s.js.slab@[target as int]);
    let an = spec_obj_name(s.js.slab@[this_argument as int]);
    if tn == "getTimezoneOffset"@ && an == "Date"@ {
        (0i64, false)
    } else if tn == "register"@ && an == "net_listener"@ {
        (0i64, true)
    } else if tn == "_makeFuncWrapper"@ && an == "this"@ {
        ((s.js.slab@.len() as i64), true)
    } else if tn == "getRandomValues"@ && an == "crypto"@ {
        (0i64, true)
    } else if tn == "lookup_ip"@ && an == "wasabi"@ {
        if args.len() >= 2 {
            args[1]
        } else {
            (0i64, false)
        }
    } else if tn == "isDirectory"@ && an == "fstat"@ {
        spec_obj_props(s.js.slab@[this_argument as int])["is_dir"@]
    } else if tn == "fstat"@ && an == "fs"@ {
        (2i64, true)
    } else if tn == "read"@ && an == "fs"@ {
        (2i64, true)
    } else if tn == "open"@ && an == "fs"@ {
        (2i64, true)
    } else if tn == "stat"@ && an == "fs"@ {
        (0i64, true)
    } else if tn == "write"@ && an == "fs"@ {
        if args.len() >= 4 {
            args[3]
        } else {
            (0i64, false)
        }
    } else {
        (0i64, false)
    }
}

impl SharedState {
    /// The slab keeps its objects well-formed and the heap its ids.
    pub open spec fn wf(&self) -> bool {
        &&& self.js.wf()
        &&& self.timeout_heap.wf()
    }

    /// A fresh instance: not exited, no registered network callback, the
    /// interned slab of `Js::new`, an empty queue and heap, and no memory
    /// attached yet (the driver hands it the instantiated module's).
    pub fn new() -> (r: SharedState)
        ensures
            r.wf(),
            !r.exited,
            r.net_callback_id == 0,
            !r.net_active,
            r.call_queue@ == Seq::<i64>::empty(),
            r.timeout_heap.entries@ == Seq::<crate::timeout_heap::Timeout>::empty(),
            r.mem@ == Seq::<u8>::empty(),
            r.js.slab@.len() == 41,
            r.js.slab@[0] is NaN,
            r.js.slab@[2] is Null,
            r.js.slab@[3] is True,
            r.js.slab@[4] is False,
            r.js.global == 5,
    {
        let js = match Js::new() {
            Ok(js) => js,
            Err(_) => {
                proof {
                    assert(false);
                }
                vstd::pervasive::unreached()
            },
        };
        SharedState {
            exited: false,
            net_callback_id: 0,
            net_active: false,
            timeout_heap: TimeoutHeap::new(),
            call_queue: VecDeque::new(),
            js,
            mem: Mem::new(),
        }
    }

    /// Stores owned bytes in the slab and returns their handle.
    pub fn store_value_bytes(&mut self, b: Vec<u8>) -> (r: i32)
        requires
            old(self).js.slab@.len() < 0x7FFF_FFFF,
        ensures
            r == old(self).js.slab@.len(),
            final(self).js.slab@ == old(self).js.slab@.push(Value::Bytes(b)),
            final(self).mem == old(self).mem,
            final(self).call_queue == old(self).call_queue,
            final(self).timeout_heap == old(self).timeout_heap,
            final(self).exited == old(self).exited,
            final(self).net_active == old(self).net_active,
            final(self).net_callback_id == old(self).net_callback_id,
            final(self).js.error_not_found == old(self).js.error_not_found,
            final(self).js.error_exists == old(self).js.error_exists,
    {
        self.js.slab_add(Value::Bytes(b)) as i32
    }

    /// Stores a string's bytes in the slab and writes the handle at
    /// `address`.
    pub fn store_string(&mut self, address: i32, val: String) -> (r: Result<(), HostError>)
        requires
            old(self).js.slab@.len() < 0x7FFF_FFFF,
        ensures
            r is Ok <==> old(self).mem.in_bounds(address as int, 4),
            final(self).js.slab@.len() == old(self).js.slab@.len() + 1,
            forall|k: int|
                0 <= k < old(self).js.slab@.len() ==> final(self).js.slab@[k] == old(self).js.slab@[k],
            final(self).js.slab@.last() matches Value::Bytes(b) && b@ == spec_string_bytes(val),
            r is Ok ==> final(self).mem@ == spec_splice(
                old(self).mem@,
                address as int,
                spec_i32_le_bytes(old(self).js.slab@.len() as i32),
            ),
            r is Err ==> final(self).mem@ == old(self).mem@,
            final(self).call_queue == old(self).call_queue,
            final(self).timeout_heap == old(self).timeout_heap,
            final(self).exited == old(self).exited,
            final(self).net_active == old(self).net_active,
            final(self).net_callback_id == old(self).net_callback_id,
    {
        let bytes = string_to_bytes(val);
        let reference = self.store_value_bytes(bytes);
        match self.mem.set_i32(address, reference) {
            Ok(_) => Ok(()),
            Err(_) => Err(HostError::InvalidAddress),
        }
    }

    /// Reads the tagged slot at `address`.
    pub fn load_value(&self, address: i32) -> (r: Result<(i64, bool), HostError>)
        ensures
            r is Ok <==> self.mem.in_bounds(address as int, 8),
            r matches Ok(v) ==> v == spec_slot_at(self.mem@, address as int),
    {
        if address < 0 {
            return Err(HostError::InvalidAddress);
        }
        match self.mem.read_bytes(address as usize, 8) {
            Ok(b) => {
                let v = crate::js::load_value(b.as_slice());
                proof {
                    assert(b@[0] == self.mem@[address as int]);
                }
                Ok(v)
            },
            Err(_) => Err(HostError::InvalidAddress),
        }
    }

    /// Writes a tagged value into the slot at `addr`.
    pub fn store_value(&mut self, addr: i32, jsv: (i64, bool)) -> (r: Result<(), HostError>)
        ensures
            r is Ok <==> old(self).mem.in_bounds(addr as int, 8),
            r is Ok ==> final(self).mem@ == spec_splice(
                old(self).mem@,
                addr as int,
                spec_u64_le_bytes(spec_store_slot(jsv.0, jsv.1)),
            ),
            r is Err ==> final(self).mem@ == old(self).mem@,
            final(self).js == old(self).js,
            final(self).call_queue == old(self).call_queue,
            final(self).timeout_heap == old(self).timeout_heap,
            final(self).exited == old(self).exited,
            final(self).net_active == old(self).net_active,
            final(self).net_callback_id == old(self).net_callback_id,
    {
        let b = crate::js::store_value(jsv);
        if addr < 0 {
            return Err(HostError::InvalidAddress);
        }
        match self.mem.write_bytes(addr as usize, b.as_slice()) {
            Ok(_) => Ok(()),
            Err(_) => Err(HostError::InvalidAddress),
        }
    }

    /// Reads the `{array_ptr, _, len}` descriptor at `address` and decodes
    /// `len` tagged slots starting at `array_ptr`.
    pub fn load_slice_of_values(&self, address: i32) -> (r: Result<Vec<(i64, bool)>, HostError>)
        ensures
            r is Ok <==> spec_slice_ok(self.mem@, address as int),
            r matches Ok(v) ==> v@ == spec_slice_at(self.mem@, address as int),
    {
        if address < 0 || address > i32::MAX - 8 {
            return Err(HostError::InvalidAddress);
        }
        let array = match self.mem.get_i32(address) {
            Ok(v) => v,
            Err(_) => {
                return Err(HostError::InvalidAddress);
            },
        };
        let len = match self.mem.get_i32(address + 8) {
            Ok(v) => v,
            Err(_) => {
                return Err(HostError::InvalidAddress);
            },
        };
        if array < 0 || len < 0 {
            return Err(HostError::InvalidAddress);
        }
        let mut out: Vec<(i64, bool)> = Vec::new();
        let mut n: usize = 0;
        let len_u = len as usize;
        let array_u = array as usize;
        let ml = self.mem.len();
        let total: u64 = 8u64 * (len_u as u64);
        if array_u as u64 > ml as u64 || total > ml as u64 - array_u as u64 {
            return Err(HostError::InvalidAddress);
        }
        while n < len_u
            invariant
                0 <= n <= len_u,
                ml == self.mem@.len(),
                array_u + 8 * len_u <= ml,
                array_u + 8 * len_u <= self.mem@.len(),
                out@.len() == n,
                forall|k: int|
                    0 <= k < n ==> out@[k] == spec_slot_at(self.mem@, array_u + 8 * k),
            decreases len_u - n,
        {
            match self.mem.read_bytes(array_u + 8 * n, 8) {
                Ok(b) => {
                    let v = crate::js::load_value(b.as_slice());
                    proof {
                        assert(b@[0] == self.mem@[array_u + 8 * n]);
                    }
                    out.push(v);
                },
                Err(_) => {
                    proof {
                        assert(false);
                    }
                    return Err(HostError::InvalidAddress);
                },
            }
            n = n + 1;
        }
        proof {
            assert(out@ =~= spec_slice_at(self.mem@, address as int));
        }
        Ok(out)
    }

    /// Writes a `usize` outcome the way the networking imports expect it:
    /// the value (or an error handle) in the slot at `addr`, and a success
    /// byte right after it.
    pub fn set_usize_result(&mut self, addr: i32, result: Result<usize, String>) -> (r: Result<
        (),
        HostError,
    >)
        requires
            old(self).js.slab@.len() < 0x7FFF_FFFF,
            addr <= i32::MAX - 4,
        ensures
            r is Ok <==> old(self).mem.in_bounds(addr as int, 4) && old(self).mem.in_bounds(
                addr as int + 4,
                1,
            ),
            r is Ok ==> final(self).mem@ == (match result {
                Ok(value) => spec_splice(
                    spec_splice(old(self).mem@, addr as int, spec_i32_le_bytes(value as i32)),
                    addr as int + 4,
                    seq![1u8],
                ),
                Err(msg) => spec_splice(
                    spec_splice(
                        old(self).mem@,
                        addr as int,
                        spec_i32_le_bytes(old(self).js.slab@.len() as i32),
                    ),
                    addr as int + 4,
                    seq![0u8],
                ),
            }),
            result matches Err(msg) ==> final(self).js.slab@.len() == old(self).js.slab@.len()
                + 1 && (final(self).js.slab@.last() matches Value::Bytes(b) && b@
                == spec_string_bytes(msg)) && (forall|k: int|
                0 <= k < old(self).js.slab@.len() ==> final(self).js.slab@[k] == old(self).js.slab@[k]),
            result is Ok ==> final(self).js == old(self).js,
            final(self).call_queue == old(self).call_queue,
            final(self).timeout_heap == old(self).timeout_heap,
            final(self).exited == old(self).exited,
            final(self).net_active == old(self).net_active,
            final(self).net_callback_id == old(self).net_callback_id,
    {
        let in_bounds = {
            let a = addr;
            a >= 0 && {
                let l = self.mem.len();
                a as u64 + 5 <= l as u64
            }
        };
        if !in_bounds {
            // perform no partial write; the guest's result slot is bad
            match result {
                Ok(_) => {
                    return Err(HostError::InvalidAddress);
                },
                Err(msg) => {
                    let bytes = string_to_bytes(msg);
                    self.store_value_bytes(bytes);
                    return Err(HostError::InvalidAddress);
                },
            }
        }
        match result {
            Ok(value) => {
                let res1 = self.mem.set_i32(addr, value as i32);
                proof {
                    assert(res1 is Ok);
                }
                let res2 = self.mem.set_bool(addr + 4, true);
                proof {
                    assert(res2 is Ok);
                }
                Ok(())
            },
            Err(msg) => {
                let res1 = self.set_error(addr, msg);
                proof {
                    assert(res1 is Ok);
                }
                let res2 = self.mem.set_bool(addr + 4, false);
                proof {
                    assert(res2 is Ok);
                }
                Ok(())
            },
        }
    }

    /// Stores an error message for the guest: its bytes go into the slab
    /// and the handle into the slot at `addr`.
    pub fn set_error(&mut self, addr: i32, err: String) -> (r: Result<(), HostError>)
        requires
            old(self).js.slab@.len() < 0x7FFF_FFFF,
        ensures
            r is Ok <==> old(self).mem.in_bounds(addr as int, 4),
            final(self).js.slab@.len() == old(self).js.slab@.len() + 1,
            forall|k: int|
                0 <= k < old(self).js.slab@.len() ==> final(self).js.slab@[k] == old(self).js.slab@[k],
            final(self).js.slab@.last() matches Value::Bytes(b) && b@ == spec_string_bytes(err),
            r is Ok ==> final(self).mem@ == spec_splice(
                old(self).mem@,
                addr as int,
                spec_i32_le_bytes(old(self).js.slab@.len() as i32),
            ),
            r is Err ==> final(self).mem@ == old(self).mem@,
            final(self).call_queue == old(self).call_queue,
            final(self).timeout_heap == old(self).timeout_heap,
            final(self).exited == old(self).exited,
            final(self).net_active == old(self).net_active,
            final(self).net_callback_id == old(self).net_callback_id,
    {
        self.store_string(addr, err)
    }

    /// Stores each byte array in the slab, then a table of their handles
    /// (four little-endian bytes each), and returns the table's handle.
    pub fn set_byte_array_array_ref(&mut self, values: Vec<Vec<u8>>) -> (r: i32)
        requires
            old(self).js.wf(),
            old(self).js.slab@.len() + values@.len() + 1 < 0x7FFF_FFFF,
        ensures
            final(self).js.wf(),
            r == old(self).js.slab@.len() + values@.len(),
            final(self).js.slab@.len() == old(self).js.slab@.len() + values@.len() + 1,
            forall|k: int|
                0 <= k < old(self).js.slab@.len() ==> final(self).js.slab@[k] == old(self).js.slab@[k],
            forall|k: int|
                0 <= k < values@.len() ==> ((#[trigger] final(self).js.slab@[old(self).js.slab@.len() + k]) matches Value::Bytes(b) && b@ == values@[k]@),
            final(self).js.slab@[r as int] matches Value::Bytes(table) && table@
                == spec_ref_table(old(self).js.slab@.len() as int, values@.len()),
            final(self).mem == old(self).mem,
            final(self).call_queue == old(self).call_queue,
            final(self).timeout_heap == old(self).timeout_heap,
            final(self).exited == old(self).exited,
            final(self).net_active == old(self).net_active,
            final(self).net_callback_id == old(self).net_callback_id,
            final(self).js.error_not_found == old(self).js.error_not_found,
            final(self).js.error_exists == old(self).js.error_exists,
    {
        let ghost base = self.js.slab@.len() as int;
        let n = values.len();
        let mut byte_references: Vec<u8> = Vec::new();
        let mut i: usize = 0;
        let ghost values0 = values@;
        while i < n
            invariant
                0 <= i <= n,
                n == values0.len(),
                values@ == values0,
                base == old(self).js.slab@.len(),
                base + values0.len() + 1 < 0x7FFF_FFFF,
                self.js.slab@.len() == base + i,
                self.js.wf(),
                forall|k: int| 0 <= k < base ==> self.js.slab@[k] == old(self).js.slab@[k],
                forall|k: int|
                    0 <= k < i ==> ((#[trigger] self.js.slab@[base + k]) matches Value::Bytes(b)
                        && b@ == values0[k]@),
                byte_references@ == spec_ref_table(base, i as nat),
                self.mem == old(self).mem,
                self.call_queue == old(self).call_queue,
                self.timeout_heap == old(self).timeout_heap,
                self.exited == old(self).exited,
                self.net_active == old(self).net_active,
                self.net_callback_id == old(self).net_callback_id,
                self.js.error_not_found == old(self).js.error_not_found,
                self.js.error_exists == old(self).js.error_exists,
            decreases n - i,
        {
            let ghost pre_refs = byte_references@;
            let v = values[i].clone();
            let reference = self.store_value_bytes(v);
            let rb = crate::bytes::i32_as_u8_le(reference);
            byte_references.push(rb[0]);
            byte_references.push(rb[1]);
            byte_references.push(rb[2]);
            byte_references.push(rb[3]);
            proof {
                assert(byte_references@ =~= pre_refs + spec_i32_le_bytes(reference));
                assert(byte_references@ =~= spec_ref_table(base, (i + 1) as nat));
            }
            i = i + 1;
        }
        self.store_value_bytes(byte_references)
    }

    /// As `set_byte_array_array_ref`, and writes the table's handle into
    /// the slot at `addr`.
    pub fn set_byte_array_array(&mut self, addr: i32, values: Vec<Vec<u8>>) -> (r: Result<
        (),
        HostError,
    >)
        requires
            old(self).js.wf(),
            old(self).js.slab@.len() + values@.len() + 1 < 0x7FFF_FFFF,
        ensures
            final(self).js.wf(),
            r is Ok <==> old(self).mem.in_bounds(addr as int, 4),
            r is Ok ==> final(self).mem@ == spec_splice(
                old(self).mem@,
                addr as int,
                spec_i32_le_bytes((old(self).js.slab@.len() + values@.len()) as i32),
            ),
            r is Err ==> final(self).mem@ == old(self).mem@,
            final(self).js.slab@.len() == old(self).js.slab@.len() + values@.len() + 1,
            forall|k: int|
                0 <= k < old(self).js.slab@.len() ==> final(self).js.slab@[k] == old(self).js.slab@[k],
            forall|k: int|
                0 <= k < values@.len() ==> ((#[trigger] final(self).js.slab@[old(self).js.slab@.len() + k]) matches Value::Bytes(b) && b@ == values@[k]@),
            final(self).js.slab@[(old(self).js.slab@.len() + values@.len()) as int]
                matches Value::Bytes(table) && table@ == spec_ref_table(
                old(self).js.slab@.len() as int,
                values@.len(),
            ),
    {
        let reference = self.set_byte_array_array_ref(values);
        match self.mem.set_i32(addr, reference) {
            Ok(_) => Ok(()),
            Err(_) => Err(HostError::InvalidAddress),
        }
    }

    /// Queues a `pending_event` object for the guest: it carries the
    /// callback id, a null result, a fresh `this`, and the argument array,
    /// and its handle goes to the back of the call queue.
    pub fn add_pending_event(&mut self, id: i64, args: Vec<(i64, bool)>) -> (r: Result<
        (),
        HostError,
    >)
        requires
            old(self).wf(),
            old(self).js.slab@.len() + 4 < 0x7FFF_FFFF,
        ensures
            final(self).wf(),
            r is Ok,
            ({
                let pe = old(self).js.slab@.len() as i64;
                &&& final(self).call_queue@ == old(self).call_queue@.push(pe)
                &&& final(self).js.slab@.len() == old(self).js.slab@.len() + 3
                &&& forall|k: int|
                    0 <= k < old(self).js.slab@.len() ==> final(self).js.slab@[k] == old(self).js.slab@[k]
                &&& final(self).js.slab@[pe as int] is Object
                &&& spec_obj_name(final(self).js.slab@[pe as int]) == "pending_event"@
                &&& spec_obj_props(final(self).js.slab@[pe as int]).contains_key("id"@)
                &&& spec_obj_props(final(self).js.slab@[pe as int]).contains_key("result"@)
                &&& spec_obj_props(final(self).js.slab@[pe as int]).contains_key("this"@)
                &&& spec_obj_props(final(self).js.slab@[pe as int]).contains_key("args"@)
                &&& spec_obj_props(final(self).js.slab@[pe as int])["id"@] == (id, false)
                &&& spec_obj_props(final(self).js.slab@[pe as int])["result"@] == (2i64, true)
                &&& spec_obj_props(final(self).js.slab@[pe as int])["this"@] == ((pe + 1) as i64, true)
                &&& spec_obj_props(final(self).js.slab@[pe as int])["args"@] == ((pe + 2) as i64, true)
                &&& final(self).js.slab@[pe as int + 2] matches Value::Array(items) && items@
                    == args@
            }),
            final(self).mem == old(self).mem,
            final(self).timeout_heap == old(self).timeout_heap,
            final(self).exited == old(self).exited,
            final(self).net_active == old(self).net_active,
            final(self).net_callback_id == old(self).net_callback_id,
            final(self).net_active == old(self).net_active,
            final(self).js.error_not_found == old(self).js.error_not_found,
            final(self).js.error_exists == old(self).js.error_exists,
    {
        proof {
            reveal_strlit("id");
            reveal_strlit("result");
            reveal_strlit("this");
            reveal_strlit("args");
            reveal_strlit("pending_event");
            assert("id"@.len() == 2 && "result"@.len() == 6 && "this"@.len() == 4
                && "args"@.len() == 4);
            assert("this"@[0] == 't' && "args"@[0] == 'a');
            assert("id"@ != "result"@ && "id"@ != "this"@ && "id"@ != "args"@ && "result"@
                != "this"@ && "result"@ != "args"@ && "this"@ != "args"@);
        }
        let pe = self.js.slab_add(
            Value::Object { name: "pending_event".to_owned(), values: Vec::new() },
        );
        let r1 = self.js.add_object_value(pe, "id", (id, false));
        let r2 = self.js.add_object_value(pe, "result", (2, true));
        let r3 = self.js.add_object(pe, "this");
        let r4 = self.js.add_array(pe, "args", args);
        proof {
            assert(r1 is Ok && r2 is Ok && r3 is Ok && r4 is Ok);
        }
        self.call_queue.push_back(pe);
        Ok(())
    }

    /// Dispatches a JS-style method call `this.target(args)` by the pair of
    /// object names, not by the handles: the emulated routes either answer
    /// directly, mutate state, or hand back an I/O request for the driver
    /// to submit. An unknown pair is an ABI violation.
    pub fn reflect_apply(&mut self, target: i64, this_argument: i64, argument_list: Vec<
        (i64, bool),
    >) -> (r: Result<((i64, bool), Option<IoRequest>), HostError>)
        requires
            old(self).wf(),
            old(self).js.slab@.len() + 4 < 0x7FFF_FFFF,
        ensures
            final(self).wf(),
            final(self).exited == old(self).exited,
            final(self).net_active == old(self).net_active,
            final(self).timeout_heap == old(self).timeout_heap,
            final(self).call_queue == old(self).call_queue,
            (!old(self).js.spec_is_object(target) || !old(self).js.spec_is_object(this_argument))
                ==> r is Err,
            (old(self).js.spec_is_object(target) && old(self).js.spec_is_object(this_argument)
                && spec_apply_ok(*old(self), target, this_argument, argument_list@)) ==> r is Ok,
            r is Ok ==> (old(self).js.spec_is_object(target) && old(self).js.spec_is_object(
                this_argument,
            ) && spec_apply_ok(*old(self), target, this_argument, argument_list@)),
            r matches Ok(res) ==> res.0 == spec_apply_result(
                *old(self),
                target,
                this_argument,
                argument_list@,
            ),
            !(spec_obj_name(old(self).js.slab@[target as int]) == "register"@ && spec_obj_name(
                old(self).js.slab@[this_argument as int],
            ) == "net_listener"@) ==> final(self).net_callback_id == old(self).net_callback_id,
            !(spec_obj_name(old(self).js.slab@[target as int]) == "_makeFuncWrapper"@
                && spec_obj_name(old(self).js.slab@[this_argument as int]) == "this"@) ==> final(self).js == old(self).js,
            (old(self).js.spec_is_object(target) && old(self).js.spec_is_object(this_argument))
                ==> ({
                let tn = spec_obj_name(old(self).js.slab@[target as int]);
                let an = spec_obj_name(old(self).js.slab@[this_argument as int]);
                let args = argument_list@;
                let unchanged_state = *final(self) == *old(self);
                &&& (tn == "getTimezoneOffset"@ && an == "Date"@) ==> r == Ok::<
                    _,
                    HostError,
                >(((0i64, false), None::<IoRequest>)) && unchanged_state
                &&& (tn == "register"@ && an == "net_listener"@) ==> {
                    let ok_conds = args.len() >= 1 && old(self).js.spec_is_object(args[0].0)
                        && spec_obj_props(old(self).js.slab@[args[0].0 as int]).contains_key(
                        "id"@,
                    );
                    &&& ok_conds ==> r == Ok::<_, HostError>(((0i64, true), None::<IoRequest>))
                        && final(self).net_callback_id == spec_obj_props(
                        old(self).js.slab@[args[0].0 as int],
                    )["id"@].0 && final(self).js == old(self).js && final(self).mem == old(self).mem
                    &&& !ok_conds ==> r is Err
                }
                &&& (tn == "_makeFuncWrapper"@ && an == "this"@) ==> {
                    let wf_handle = old(self).js.slab@.len() as i64;
                    &&& args.len() >= 1 ==> r == Ok::<_, HostError>(
                        ((wf_handle, true), None::<IoRequest>),
                    ) && final(self).js.slab@.len() == old(self).js.slab@.len() + 2 && (forall|
                        k: int,
                    |
                        0 <= k < old(self).js.slab@.len() ==> final(self).js.slab@[k] == old(self).js.slab@[k]) && final(self).js.slab@[wf_handle as int] is Object
                        && spec_obj_name(final(self).js.slab@[wf_handle as int])
                        == "wrappedFunc"@ && spec_obj_props(
                        final(self).js.slab@[wf_handle as int],
                    )["id"@] == args[0] && spec_obj_props(
                        final(self).js.slab@[wf_handle as int],
                    ).contains_key("this"@) && spec_obj_props(
                        final(self).js.slab@[wf_handle as int],
                    )["this"@] == ((wf_handle + 1) as i64, true) && final(self).js.slab@[wf_handle as int + 1] is Object && final(self).mem == old(self).mem
                    &&& args.len() == 0 ==> r is Err
                }
                &&& (tn == "getRandomValues"@ && an == "crypto"@) ==> {
                    let ok_conds = args.len() >= 1 && 0 <= args[0].0 < old(self).js.slab@.len()
                        && (old(self).js.slab@[args[0].0 as int] matches Value::Memory {
                        address,
                        len,
                    } && 0 <= address && 0 <= len && address + len <= old(self).mem@.len());
                    &&& ok_conds ==> (r == Ok::<_, HostError>(((0i64, true), None::<IoRequest>))
                        && final(self).js == old(self).js && final(self).mem@.len() == old(self).mem@.len() && (old(self).js.slab@[args[0].0 as int]
                        matches Value::Memory { address, len } ==> forall|t: int|
                        0 <= t < old(self).mem@.len() && !(address <= t < address + len)
                            ==> final(self).mem@[t] == old(self).mem@[t]))
                    &&& !ok_conds ==> r is Err
                }
                &&& (tn == "lookup_ip"@ && an == "wasabi"@) ==> {
                    let ok_conds = args.len() >= 2 && 0 <= args[0].0 < old(self).js.slab@.len()
                        && old(self).js.slab@[args[0].0 as int] is String;
                    &&& ok_conds ==> ((r matches Ok(res) && res.0 == args[1] && (res.1
                        matches Some(req) && req matches IoRequest::LookupIp { id, host } && id
                        == args[1].0 && (old(self).js.slab@[args[0].0 as int]
                        matches Value::String(h) ==> host@ == h@))) && final(self).js == old(self).js && final(self).mem == old(self).mem)
                    &&& !ok_conds ==> r is Err
                }
                &&& (tn == "isDirectory"@ && an == "fstat"@) ==> {
                    let props = spec_obj_props(old(self).js.slab@[this_argument as int]);
                    &&& props.contains_key("is_dir"@) ==> r == Ok::<_, HostError>(
                        (props["is_dir"@], None::<IoRequest>),
                    ) && unchanged_state
                    &&& !props.contains_key("is_dir"@) ==> r is Err
                }
                &&& (tn == "fstat"@ && an == "fs"@) ==> {
                    &&& args.len() >= 2 ==> (r matches Ok(res) && res.0 == (2i64, true) && (res.1
                        matches Some(req) && req == (IoRequest::Metadata {
                        id: args[1].0,
                        fd: crate::js::spec_int_from(args[0]) as usize,
                    })) && final(self).js == old(self).js && final(self).mem == old(self).mem)
                    &&& args.len() < 2 ==> r is Err
                }
                &&& (tn == "read"@ && an == "fs"@) ==> {
                    let ok_conds = args.len() >= 6 && 0 <= args[1].0 < old(self).js.slab@.len()
                        && old(self).js.slab@[args[1].0 as int] is Memory && 0 <= old(self).js.slab@[args[1].0 as int]->Memory_address;
                    &&& ok_conds ==> (r matches Ok(res) && res.0 == (2i64, true) && (res.1
                        matches Some(req) && req == (IoRequest::FsRead {
                        id: args[5].0,
                        fd: crate::js::spec_int_from(args[0]) as usize,
                        address: old(self).js.slab@[args[1].0 as int]->Memory_address as usize,
                        len: crate::js::spec_int_from(args[3]) as usize,
                    })) && unchanged_state)
                    &&& !ok_conds ==> r is Err
                }
                &&& (tn == "open"@ && an == "fs"@) ==> {
                    let ok_conds = args.len() >= 4 && 0 <= args[0].0 < old(self).js.slab@.len()
                        && old(self).js.slab@[args[0].0 as int] is String;
                    &&& ok_conds ==> (r matches Ok(res) && res.0 == (2i64, true) && (res.1
                        matches Some(req) && req matches IoRequest::FsOpen {
                        id,
                        path,
                        openmode,
                        perm,
                    } && id == args[3].0 && openmode == crate::js::spec_int_from(args[1]) && perm
                        == crate::js::spec_int_from(args[2]) as i32 && (old(self).js.slab@[args[0].0 as int] matches Value::String(p) ==> path@ == p@))
                        && unchanged_state)
                    &&& !ok_conds ==> r is Err
                }
                &&& (tn == "stat"@ && an == "fs"@) ==> {
                    let ok_conds = args.len() >= 1 && 0 <= args[0].0 < old(self).js.slab@.len()
                        && old(self).js.slab@[args[0].0 as int] is String;
                    &&& ok_conds ==> r == Ok::<_, HostError>(((0i64, true), None::<IoRequest>))
                        && unchanged_state
                    &&& !ok_conds ==> r is Err
                }
                &&& (tn == "write"@ && an == "fs"@) ==> {
                    let ok_conds = args.len() >= 6 && 0 <= args[1].0 < old(self).js.slab@.len()
                        && (old(self).js.slab@[args[1].0 as int] matches Value::Memory {
                        address,
                        len,
                    } && 0 <= address && 0 <= len && address + len <= old(self).mem@.len());
                    &&& ok_conds ==> (r matches Ok(res) && res.0 == args[3] && (res.1
                        matches Some(req) && req matches IoRequest::Stdout { id, buf } && id
                        == args[5].0 && (old(self).js.slab@[args[1].0 as int]
                        matches Value::Memory { address, len } ==> buf@ == old(self).mem@.subrange(address as int, address + len))) && unchanged_state)
                    &&& !ok_conds ==> r is Err
                }
                &&& !((tn == "getTimezoneOffset"@ && an == "Date"@) || (tn == "register"@ && an
                    == "net_listener"@) || (tn == "_makeFuncWrapper"@ && an == "this"@) || (tn
                    == "getRandomValues"@ && an == "crypto"@) || (tn == "lookup_ip"@ && an
                    == "wasabi"@) || (tn == "isDirectory"@ && an == "fstat"@) || (tn == "fstat"@
                    && an == "fs"@) || (tn == "read"@ && an == "fs"@) || (tn == "open"@ && an
                    == "fs"@) || (tn == "stat"@ && an == "fs"@) || (tn == "write"@ && an
                    == "fs"@)) ==> r is Err
            }),
    {
        proof {
            reveal_strlit("getTimezoneOffset");
            reveal_strlit("register");
            reveal_strlit("_makeFuncWrapper");
            reveal_strlit("getRandomValues");
            reveal_strlit("lookup_ip");
            reveal_strlit("isDirectory");
            reveal_strlit("fstat");
            reveal_strlit("read");
            reveal_strlit("open");
            reveal_strlit("stat");
            reveal_strlit("write");
            reveal_strlit("Date");
            reveal_strlit("net_listener");
            reveal_strlit("this");
            reveal_strlit("crypto");
            reveal_strlit("wasabi");
            reveal_strlit("fs");
            reveal_strlit("id");
            reveal_strlit("is_dir");
            reveal_strlit("wrappedFunc");
            assert("getTimezoneOffset"@.len() == 17 && "register"@.len() == 8
                && "_makeFuncWrapper"@.len() == 16 && "getRandomValues"@.len() == 15
                && "lookup_ip"@.len() == 9 && "isDirectory"@.len() == 11 && "fstat"@.len() == 5
                && "read"@.len() == 4 && "open"@.len() == 4 && "stat"@.len() == 4
                && "write"@.len() == 5);
            assert("read"@[0] == 'r' && "open"@[0] == 'o' && "stat"@[0] == 's' && "fstat"@[0]
                == 'f' && "write"@[0] == 'w');
            assert("read"@ != "open"@ && "read"@ != "stat"@ && "open"@ != "stat"@ && "fstat"@
                != "write"@);
        }
        let target_name: String = match self.js.get_object_name(target) {
            Some(n) => n.clone(),
            None => {
                return Err(HostError::NotAnObject);
            },
        };
        let this_name: String = match self.js.get_object_name(this_argument) {
            Some(n) => n.clone(),
            None => {
                return Err(HostError::NotAnObject);
            },
        };
        if target_name == "getTimezoneOffset".to_owned() && this_name == "Date".to_owned() {
            Ok(((0, false), None))
        } else if target_name == "register".to_owned() && this_name == "net_listener".to_owned() {
            if argument_list.len() < 1 {
                return Err(HostError::TypeMismatch);
            }
            let cb = match self.js.reflect_get(argument_list[0].0, "id") {
                Some(v) => v,
                None => {
                    return Err(HostError::TypeMismatch);
                },
            };
            self.net_callback_id = cb.0;
            Ok(((0, true), None))
        } else if target_name == "_makeFuncWrapper".to_owned() && this_name == "this".to_owned() {
            if argument_list.len() < 1 {
                return Err(HostError::TypeMismatch);
            }
            let wf_handle = self.js.slab_add(
                Value::Object { name: "wrappedFunc".to_owned(), values: Vec::new() },
            );
            let r1 = self.js.add_object(wf_handle, "this");
            let r2 = self.js.add_object_value(wf_handle, "id", argument_list[0]);
            proof {
                assert("this"@[0] == 't' && "id"@[0] == 'i');
                assert("this"@ != "id"@);
                assert(r1 is Ok && r2 is Ok);
            }
            Ok(((wf_handle, true), None))
        } else if target_name == "getRandomValues".to_owned() && this_name == "crypto".to_owned() {
            if argument_list.len() < 1 {
                return Err(HostError::TypeMismatch);
            }
            let (address, len) = match self.js.slab_get(argument_list[0].0) {
                Some(v) => match v {
                    Value::Memory { address, len } => (*address, *len),
                    _ => {
                        return Err(HostError::TypeMismatch);
                    },
                },
                None => {
                    return Err(HostError::NoSuchRef);
                },
            };
            if address < 0 || len < 0 {
                return Err(HostError::InvalidAddress);
            }
            let ml = self.mem.len();
            if address as u64 > ml as u64 || len as u64 > ml as u64 - address as u64 {
                return Err(HostError::InvalidAddress);
            }
            let mut buf = match self.mem.read_bytes(address as usize, len as usize) {
                Ok(b) => b,
                Err(_) => {
                    return Err(HostError::InvalidAddress);
                },
            };
            crate::util::fill_random(&mut buf);
            match self.mem.write_bytes(address as usize, buf.as_slice()) {
                Ok(_) => Ok(((0, true), None)),
                Err(_) => Err(HostError::InvalidAddress),
            }
        } else if target_name == "lookup_ip".to_owned() && this_name == "wasabi".to_owned() {
            if argument_list.len() < 2 {
                return Err(HostError::TypeMismatch);
            }
            let host: String = match self.js.slab_get(argument_list[0].0) {
                Some(v) => match v {
                    Value::String(sv) => sv.clone(),
                    _ => {
                        return Err(HostError::TypeMismatch);
                    },
                },
                None => {
                    return Err(HostError::NoSuchRef);
                },
            };
            Ok(
                (
                    argument_list[1],
                    Some(IoRequest::LookupIp { id: argument_list[1].0, host }),
                ),
            )
        } else if target_name == "isDirectory".to_owned() && this_name == "fstat".to_owned() {
            match self.js.reflect_get(this_argument, "is_dir") {
                Some(v) => Ok((v, None)),
                None => Err(HostError::TypeMismatch),
            }
        } else if target_name == "fstat".to_owned() && this_name == "fs".to_owned() {
            if argument_list.len() < 2 {
                return Err(HostError::TypeMismatch);
            }
            let fd = crate::js::int_from_value(argument_list[0]);
            Ok(
                (
                    (2, true),
                    Some(
                        IoRequest::Metadata { id: argument_list[1].0, fd: fd as usize },
                    ),
                ),
            )
        } else if target_name == "read".to_owned() && this_name == "fs".to_owned() {
            if argument_list.len() < 6 {
                return Err(HostError::TypeMismatch);
            }
            let address = match self.js.slab_get(argument_list[1].0) {
                Some(v) => match v {
                    Value::Memory { address, .. } => *address,
                    _ => {
                        return Err(HostError::TypeMismatch);
                    },
                },
                None => {
                    return Err(HostError::NoSuchRef);
                },
            };
            if address < 0 {
                return Err(HostError::InvalidAddress);
            }
            let fd = crate::js::int_from_value(argument_list[0]);
            let ln = crate::js::int_from_value(argument_list[3]);
            Ok(
                (
                    (2, true),
                    Some(
                        IoRequest::FsRead {
                            id: argument_list[5].0,
                            fd: fd as usize,
                            address: address as usize,
                            len: ln as usize,
                        },
                    ),
                ),
            )
        } else if target_name == "open".to_owned() && this_name == "fs".to_owned() {
            if argument_list.len() < 4 {
                return Err(HostError::TypeMismatch);
            }
            let path: String = match self.js.slab_get(argument_list[0].0) {
                Some(v) => match v {
                    Value::String(sv) => sv.clone(),
                    _ => {
                        return Err(HostError::TypeMismatch);
                    },
                },
                None => {
                    return Err(HostError::NoSuchRef);
                },
            };
            let openmode = crate::js::int_from_value(argument_list[1]);
            let perm = crate::js::int_from_value(argument_list[2]);
            Ok(
                (
                    (2, true),
                    Some(
                        IoRequest::FsOpen {
                            id: argument_list[3].0,
                            path,
                            openmode,
                            perm: perm as i32,
                        },
                    ),
                ),
            )
        } else if target_name == "stat".to_owned() && this_name == "fs".to_owned() {
            if argument_list.len() < 1 {
                return Err(HostError::TypeMismatch);
            }
            match self.js.slab_get(argument_list[0].0) {
                Some(v) => match v {
                    Value::String(_) => Ok(((0, true), None)),
                    _ => Err(HostError::TypeMismatch),
                },
                None => Err(HostError::NoSuchRef),
            }
        } else if target_name == "write".to_owned() && this_name == "fs".to_owned() {
            if argument_list.len() < 6 {
                return Err(HostError::TypeMismatch);
            }
            let (address, len) = match self.js.slab_get(argument_list[1].0) {
                Some(v) => match v {
                    Value::Memory { address, len } => (*address, *len),
                    _ => {
                        return Err(HostError::TypeMismatch);
                    },
                },
                None => {
                    return Err(HostError::NoSuchRef);
                },
            };
            if address < 0 || len < 0 {
                return Err(HostError::InvalidAddress);
            }
            let ml = self.mem.len();
            if address as u64 > ml as u64 || len as u64 > ml as u64 - address as u64 {
                return Err(HostError::InvalidAddress);
            }
            let to_print = match self.mem.read_bytes(address as usize, len as usize) {
                Ok(b) => b,
                Err(_) => {
                    return Err(HostError::InvalidAddress);
                },
            };
            Ok(
                (
                    argument_list[3],
                    Some(IoRequest::Stdout { id: argument_list[5].0, buf: to_print }),
                ),
            )
        } else {
            Err(HostError::UnknownRoute)
        }
    }

    /// Attaches one finished I/O response to the slab object its callback
    /// id names and queues that object for delivery; a readiness event
    /// instead yields the `(token, conditions)` pair for the network
    /// callback's argument list.
    pub fn handle_response(&mut self, response: Response) -> (r: Result<
        Option<(i64, i64)>,
        HostError,
    >)
        requires
            old(self).wf(),
            old(self).js.slab@.len() + spec_response_growth(&response) + 4 < 0x7FFF_FFFF,
        ensures
            final(self).wf(),
            final(self).exited == old(self).exited,
            final(self).net_active == old(self).net_active,
            final(self).net_callback_id == old(self).net_callback_id,
            final(self).timeout_heap == old(self).timeout_heap,
            final(self).mem@.len() == old(self).mem@.len(),
            final(self).js.slab@.len() <= old(self).js.slab@.len() + spec_response_growth(
                &response,
            ),
            r is Ok ==> final(self).js.slab@.len() == old(self).js.slab@.len()
                + spec_response_growth(&response),
            spec_response_ok(*old(self), response) ==> r is Ok,
            forall|h: i64|
                old(self).js.spec_is_object(h) ==> final(self).js.spec_is_object(h),
            final(self).js.error_not_found == old(self).js.error_not_found,
            final(self).js.error_exists == old(self).js.error_exists,
            response matches Response::Event(e) ==> r == Ok::<_, HostError>(
                Some((e.token as i64, spec_event_bits(e) as i64)),
            ) && final(self).call_queue == old(self).call_queue && final(self).js == old(self).js
                && final(self).mem == old(self).mem,
            !(response is Event) ==> {
                let id = spec_response_id(response).unwrap();
                &&& r is Ok ==> r == Ok::<_, HostError>(None::<(i64, i64)>) && old(self).js.spec_is_object(id) && final(self).call_queue@ == old(self).call_queue@.push(
                    id,
                ) && final(self).js.slab@[id as int] is Object && spec_obj_props(
                    final(self).js.slab@[id as int],
                ).contains_key("result"@) && spec_obj_props(
                    final(self).js.slab@[id as int],
                )["result"@] == (2i64, true) && spec_obj_props(
                    final(self).js.slab@[id as int],
                ).contains_key("args"@)
                &&& !old(self).js.spec_is_object(id) ==> r is Err
                &&& r is Err ==> final(self).call_queue == old(self).call_queue
            },
            ({
                let id = spec_response_id(response).unwrap();
                let base = old(self).js.slab@.len() as i64;
                &&& response matches Response::Success { .. } ==> (r is Ok ==> spec_args_array(
                    final(self).js,
                    id,
                    seq![(2i64, true)],
                ))
                &&& response matches Response::Written { id: wid, len } ==> (r is Ok
                    ==> spec_args_array(
                    final(self).js,
                    id,
                    seq![(2i64, true), (len as i64, false)],
                ))
                &&& response matches Response::FileRef { id: fid, fd } ==> (r is Ok
                    ==> spec_args_array(
                    final(self).js,
                    id,
                    seq![(2i64, true), (fd as i64, false)],
                ))
                &&& response matches Response::Ips { id: iid, ips } ==> (r is Ok
                    ==> spec_args_array(
                    final(self).js,
                    id,
                    seq![(2i64, true), ((base + ips@.len()) as i64, false)],
                ))
                &&& response matches Response::Metadata { id: mid, is_dir } ==> (r is Ok ==> (
                spec_args_array(final(self).js, id, seq![(2i64, true), (base, true)]) && final(self).js.slab@[base as int] is Object && spec_obj_props(
                    final(self).js.slab@[base as int],
                )["is_dir"@] == (
                    if is_dir {
                        old(self).js.true_value
                    } else {
                        old(self).js.false_value
                    },
                    true,
                )))
                &&& response matches Response::Read { id: rid, len, buf, address } ==> (r is Ok
                    ==> (spec_args_array(
                    final(self).js,
                    id,
                    seq![(2i64, true), (len as i64, false), (2i64, true)],
                ) && len <= buf@.len() && address + len <= old(self).mem@.len() && final(self).mem@
                    == spec_splice(old(self).mem@, address as int, buf@.take(len as int))))
                &&& response matches Response::Error { id: eid, msg, kind } ==> (r is Ok ==> (
                match kind {
                    crate::io::ErrorKind::NotFound => spec_args_array(
                        final(self).js,
                        id,
                        seq![(old(self).js.error_not_found, true)],
                    ),
                    crate::io::ErrorKind::AlreadyExists => spec_args_array(
                        final(self).js,
                        id,
                        seq![(old(self).js.error_exists, true)],
                    ),
                    crate::io::ErrorKind::Other => spec_args_array(
                        final(self).js,
                        id,
                        seq![(base, true)],
                    ),
                }))
                &&& !(response matches Response::Read { .. }) && !(response is Event) && r is Ok
                    ==> final(self).mem == old(self).mem
            }),
    {
        proof {
            reveal_strlit("result");
            reveal_strlit("args");
            reveal_strlit("is_dir");
            reveal_strlit("isDirectory");
            assert("result"@.len() == 6 && "args"@.len() == 4 && "is_dir"@.len() == 6
                && "isDirectory"@.len() == 11);
            assert("result"@[0] == 'r' && "args"@[0] == 'a' && "is_dir"@[0] == 'i');
            assert("result"@ != "args"@ && "is_dir"@ != "args"@ && "is_dir"@ != "result"@
                && "isDirectory"@ != "args"@ && "isDirectory"@ != "result"@);
        }
        let id_opt = response.id();
        match id_opt {
            Some(id) => {
                match self.js.add_object_value(id, "result", (2, true)) {
                    Ok(_) => {},
                    Err(e) => {
                        return Err(HostError::from_js(e));
                    },
                }
                match response {
                    Response::Success { id } => {
                        let mut items: Vec<(i64, bool)> = Vec::new();
                        items.push((2, true));
                        proof {
                            assert(items@ =~= seq![(2i64, true)]);
                        }
                        let ra = self.js.add_array(id, "args", items);
                        proof {
                            assert(ra is Ok);
                        }
                    },
                    Response::Written { id, len } => {
                        let mut items: Vec<(i64, bool)> = Vec::new();
                        items.push((2, true));
                        items.push((len as i64, false));
                        proof {
                            assert(items@ =~= seq![(2i64, true), (len as i64, false)]);
                        }
                        let ra = self.js.add_array(id, "args", items);
                        proof {
                            assert(ra is Ok);
                        }
                    },
                    Response::FileRef { id, fd } => {
                        let mut items: Vec<(i64, bool)> = Vec::new();
                        items.push((2, true));
                        items.push((fd as i64, false));
                        proof {
                            assert(items@ =~= seq![(2i64, true), (fd as i64, false)]);
                        }
                        let ra = self.js.add_array(id, "args", items);
                        proof {
                            assert(ra is Ok);
                        }
                    },
                    Response::Ips { id, ips } => {
                        let mut byte_ips: Vec<Vec<u8>> = Vec::new();
                        let n = ips.len();
                        let mut k: usize = 0;
                        while k < n
                            invariant
                                0 <= k <= n,
                                n == ips@.len(),
                                byte_ips@.len() == k,
                            decreases n - k,
                        {
                            let (a, b, c, d) = ips[k];
                            let mut oct: Vec<u8> = Vec::new();
                            oct.push(a);
                            oct.push(b);
                            oct.push(c);
                            oct.push(d);
                            byte_ips.push(oct);
                            k = k + 1;
                        }
                        let reference = self.set_byte_array_array_ref(byte_ips);
                        let mut items: Vec<(i64, bool)> = Vec::new();
                        items.push((2, true));
                        items.push((reference as i64, false));
                        proof {
                            assert(items@ =~= seq![(2i64, true), (reference as i64, false)]);
                        }
                        let ra = self.js.add_array(id, "args", items);
                        proof {
                            assert(ra is Ok);
                        }
                    },
                    Response::Metadata { id, is_dir } => {
                        let fstat = self.js.add_metadata(is_dir);
                        let mut items: Vec<(i64, bool)> = Vec::new();
                        items.push((2, true));
                        items.push((fstat, true));
                        proof {
                            assert(items@ =~= seq![(2i64, true), (fstat, true)]);
                        }
                        let ra = self.js.add_array(id, "args", items);
                        proof {
                            assert(ra is Ok);
                        }
                    },
                    Response::Read { id, len, buf, address } => {
                        if len > buf.len() {
                            return Err(HostError::InvalidAddress);
                        }
                        let ml = self.mem.len();
                        if address as u64 > ml as u64 || len as u64 > ml as u64 - address as u64 {
                            return Err(HostError::InvalidAddress);
                        }
                        let part = vstd::slice::slice_subrange(buf.as_slice(), 0, len);
                        let wr = self.mem.write_bytes(address, part);
                        proof {
                            assert(wr is Ok);
                        }
                        let mut items: Vec<(i64, bool)> = Vec::new();
                        items.push((2, true));
                        items.push((len as i64, false));
                        items.push((2, true));
                        proof {
                            assert(items@ =~= seq![(2i64, true), (len as i64, false), (2i64, true)]);
                        }
                        let ra = self.js.add_array(id, "args", items);
                        proof {
                            assert(ra is Ok);
                        }
                    },
                    Response::Error { id, msg, kind } => {
                        match kind {
                            crate::io::ErrorKind::NotFound => {
                                let enoent = self.js.error_not_found;
                                let mut items: Vec<(i64, bool)> = Vec::new();
                                items.push((enoent, true));
                                proof {
                                    assert(items@ =~= seq![(enoent, true)]);
                                }
                                let ra = self.js.add_array(id, "args", items);
                                proof {
                                    assert(ra is Ok);
                                }
                            },
                            crate::io::ErrorKind::AlreadyExists => {
                                let eexist = self.js.error_exists;
                                let mut items: Vec<(i64, bool)> = Vec::new();
                                items.push((eexist, true));
                                proof {
                                    assert(items@ =~= seq![(eexist, true)]);
                                }
                                let ra = self.js.add_array(id, "args", items);
                                proof {
                                    assert(ra is Ok);
                                }
                            },
                            crate::io::ErrorKind::Other => {
                                let bytes = string_to_bytes(msg);
                                let reference = self.store_value_bytes(bytes);
                                let mut items: Vec<(i64, bool)> = Vec::new();
                                items.push((reference as i64, true));
                                proof {
                                    assert(items@ =~= seq![(reference as i64, true)]);
                                }
                                let ra = self.js.add_array(id, "args", items);
                                proof {
                                    assert(ra is Ok);
                                }
                            },
                        }
                    },
                    Response::Event(_) => {
                        proof {
                            assert(false);
                        }
                    },
                }
                self.call_queue.push_back(id);
                Ok(None)
            },
            None => {
                match response {
                    Response::Event(event) => {
                        let ints = crate::io::event_to_ints(&event);
                        Ok(Some(ints))
                    },
                    _ => {
                        proof {
                            assert(false);
                        }
                        Err(HostError::TypeMismatch)
                    },
                }
            },
        }
    }

    /// One pass of the driver's event loop: report exit if the guest has
    /// exited; fold any drained I/O responses into slab and queue in
    /// arrival order (readiness events are bundled into one network-callback
    /// event at the back); discard an expired timeout; deliver the next
    /// pending event to `this._pendingEvent`; wait out the next live
    /// timeout; and when nothing remains, queue one synthetic
    /// `pending_event` with id 0 and mark the instance exited, so the guest
    /// resumes once more to dump its state before the following pass
    /// reports exit.
    #[verifier::rlimit(100)]
    pub fn process_event_loop(&mut self, responses: Vec<Response>, now: i64) -> (r: Result<
        LoopStep,
        HostError,
    >)
        requires
            old(self).wf(),
            0 <= now,
            old(self).js.slab@.len() + spec_responses_growth(responses@) + 16 < 0x7FFF_FFFF,
        ensures
            final(self).wf(),
            final(self).net_callback_id == old(self).net_callback_id,
            final(self).net_active == old(self).net_active,
            r == Ok::<_, HostError>(LoopStep::Exit) <==> old(self).exited,
            old(self).exited ==> *final(self) == *old(self),
            (!old(self).exited && old(self).js.spec_is_object(7) && (old(self).net_active
                ==> spec_responses_ok(*old(self), responses@))) ==> r is Ok,
            final(self).js.slab@.len() <= old(self).js.slab@.len() + (if old(self).net_active {
                spec_responses_growth(responses@)
            } else {
                0int
            }) + 6,
            (!old(self).exited && r is Ok) ==> ({
                let queued = if old(self).net_active {
                    spec_queued_ids(responses@)
                } else {
                    Seq::<i64>::empty()
                };
                let ev_args = if old(self).net_active {
                    spec_event_args(responses@)
                } else {
                    Seq::<(i64, bool)>::empty()
                };
                let growth = if old(self).net_active {
                    spec_responses_growth(responses@)
                } else {
                    0int
                };
                let bundle = old(self).js.slab@.len() + growth;
                let full = old(self).call_queue@ + queued + (if ev_args.len() > 0 {
                    seq![(bundle as i64)]
                } else {
                    Seq::<i64>::empty()
                });
                let hl = old(self).timeout_heap.has_live();
                let m = old(self).timeout_heap.spec_min_live();
                let expired = hl && m.time <= now;
                ev_args.len() > 0 ==> ({
                    &&& 0 <= bundle < final(self).js.slab@.len()
                    &&& final(self).js.slab@[bundle as int] is Object
                    &&& spec_obj_name(final(self).js.slab@[bundle as int]) == "pending_event"@
                    &&& spec_obj_props(final(self).js.slab@[bundle as int])["id"@] == (
                        old(self).net_callback_id,
                        false,
                    )
                    &&& spec_obj_props(final(self).js.slab@[bundle as int])["result"@] == (
                        2i64,
                        true,
                    )
                    &&& ({
                        let h = spec_obj_props(final(self).js.slab@[bundle as int])["args"@];
                        &&& spec_obj_props(final(self).js.slab@[bundle as int]).contains_key(
                            "args"@,
                        )
                        &&& h.1
                        &&& 0 <= h.0 < final(self).js.slab@.len()
                        &&& (final(self).js.slab@[h.0 as int] matches Value::Array(a) && a@
                            == ev_args)
                    })
                })
            }),
            (!old(self).exited && r is Ok) ==> ({
                let queued = if old(self).net_active {
                    spec_queued_ids(responses@)
                } else {
                    Seq::<i64>::empty()
                };
                let ev_args = if old(self).net_active {
                    spec_event_args(responses@)
                } else {
                    Seq::<(i64, bool)>::empty()
                };
                let growth = if old(self).net_active {
                    spec_responses_growth(responses@)
                } else {
                    0int
                };
                let bundle = old(self).js.slab@.len() + growth;
                let full = old(self).call_queue@ + queued + (if ev_args.len() > 0 {
                    seq![(bundle as i64)]
                } else {
                    Seq::<i64>::empty()
                });
                let hl = old(self).timeout_heap.has_live();
                let m = old(self).timeout_heap.spec_min_live();
                let expired = hl && m.time <= now;
                expired ==> (r == Ok::<_, HostError>(LoopStep::Invoke) && final(self).call_queue@ == full && !final(self).exited && final(self).timeout_heap.entries@
                    == old(self).timeout_heap.entries@.filter(
                    |e: crate::timeout_heap::Timeout| crate::timeout_heap::spec_lt(m, e),
                ))
            }),
            (!old(self).exited && r is Ok) ==> ({
                let queued = if old(self).net_active {
                    spec_queued_ids(responses@)
                } else {
                    Seq::<i64>::empty()
                };
                let ev_args = if old(self).net_active {
                    spec_event_args(responses@)
                } else {
                    Seq::<(i64, bool)>::empty()
                };
                let growth = if old(self).net_active {
                    spec_responses_growth(responses@)
                } else {
                    0int
                };
                let bundle = old(self).js.slab@.len() + growth;
                let full = old(self).call_queue@ + queued + (if ev_args.len() > 0 {
                    seq![(bundle as i64)]
                } else {
                    Seq::<i64>::empty()
                });
                let hl = old(self).timeout_heap.has_live();
                let m = old(self).timeout_heap.spec_min_live();
                let expired = hl && m.time <= now;
                (!expired && full.len() > 0) ==> (r == Ok::<_, HostError>(LoopStep::Invoke)
                    && final(self).call_queue@ == full.drop_first() && !final(self).exited
                    && spec_obj_props(final(self).js.slab@[7])["_pendingEvent"@] == (
                    full[0],
                    true,
                ))
            }),
            (!old(self).exited && r is Ok) ==> ({
                let queued = if old(self).net_active {
                    spec_queued_ids(responses@)
                } else {
                    Seq::<i64>::empty()
                };
                let ev_args = if old(self).net_active {
                    spec_event_args(responses@)
                } else {
                    Seq::<(i64, bool)>::empty()
                };
                let growth = if old(self).net_active {
                    spec_responses_growth(responses@)
                } else {
                    0int
                };
                let bundle = old(self).js.slab@.len() + growth;
                let full = old(self).call_queue@ + queued + (if ev_args.len() > 0 {
                    seq![(bundle as i64)]
                } else {
                    Seq::<i64>::empty()
                });
                let hl = old(self).timeout_heap.has_live();
                let m = old(self).timeout_heap.spec_min_live();
                let expired = hl && m.time <= now;
                (!expired && full.len() == 0 && hl) ==> (r == Ok::<_, HostError>(
                    LoopStep::InvokeAfter(
                        (if m.time > now {
                            (m.time - now) as u64
                        } else {
                            0u64
                        }),
                    ),
                ) && !final(self).exited && final(self).call_queue@ == full && final(self).js == old(self).js && final(self).timeout_heap.entries@ == old(self).timeout_heap.entries@.filter(
                    |e: crate::timeout_heap::Timeout| crate::timeout_heap::spec_lt(m, e),
                ))
            }),
            (!old(self).exited && r is Ok) ==> ({
                let queued = if old(self).net_active {
                    spec_queued_ids(responses@)
                } else {
                    Seq::<i64>::empty()
                };
                let ev_args = if old(self).net_active {
                    spec_event_args(responses@)
                } else {
                    Seq::<(i64, bool)>::empty()
                };
                let growth = if old(self).net_active {
                    spec_responses_growth(responses@)
                } else {
                    0int
                };
                let bundle = old(self).js.slab@.len() + growth;
                let full = old(self).call_queue@ + queued + (if ev_args.len() > 0 {
                    seq![(bundle as i64)]
                } else {
                    Seq::<i64>::empty()
                });
                let hl = old(self).timeout_heap.has_live();
                let m = old(self).timeout_heap.spec_min_live();
                let expired = hl && m.time <= now;
                (!hl && full.len() == 0) ==> (r == Ok::<_, HostError>(LoopStep::Invoke)
                    && final(self).exited && final(self).call_queue@.len() == 1 && ({
                    let pe = final(self).call_queue@[0];
                    &&& 0 <= pe < final(self).js.slab@.len()
                    &&& final(self).js.slab@[pe as int] is Object
                    &&& spec_obj_name(final(self).js.slab@[pe as int]) == "pending_event"@
                    &&& spec_obj_props(final(self).js.slab@[pe as int])["id"@] == (0i64, false)
                    &&& spec_obj_props(final(self).js.slab@[pe as int])["result"@] == (
                        2i64,
                        true,
                    )
                    &&& ({
                        let h = spec_obj_props(final(self).js.slab@[pe as int])["args"@];
                        &&& spec_obj_props(final(self).js.slab@[pe as int]).contains_key(
                            "args"@,
                        )
                        &&& h.1
                        &&& 0 <= h.0 < final(self).js.slab@.len()
                        &&& (final(self).js.slab@[h.0 as int] matches Value::Array(a) && a@
                            == Seq::<(i64, bool)>::empty())
                    })
                }))
            }),
    {
        proof {
            lemma_responses_growth_nonneg(responses@);
        }
        if self.exited {
            return Ok(LoopStep::Exit);
        }
        let ghost responses0 = responses@;
        let mut pending = responses;
        let mut network_cb_args: Vec<(i64, bool)> = Vec::new();
        let ghost mut k: int = 0;
        if self.net_active && pending.len() > 0 {
            #[verifier::loop_isolation(false)]
            while pending.len() > 0
                invariant
                    self.wf(),
                    self.exited == old(self).exited,
                    self.net_active == old(self).net_active,
                    self.net_callback_id == old(self).net_callback_id,
                    self.timeout_heap == old(self).timeout_heap,
                    self.mem@.len() == old(self).mem@.len(),
                    old(self).net_active,
                    responses0.len() > 0,
                    0 <= k <= responses0.len(),
                    pending@ == responses0.skip(k),
                    self.call_queue@ == old(self).call_queue@ + spec_queued_ids(
                        responses0.take(k),
                    ),
                    self.js.slab@.len() == old(self).js.slab@.len() + spec_responses_growth(
                        responses0.take(k),
                    ),
                    spec_responses_growth(responses0.take(k)) + spec_responses_growth(pending@)
                        == spec_responses_growth(responses0),
                    network_cb_args@ == spec_event_args(responses0.take(k)),
                    forall|h: i64|
                        old(self).js.spec_is_object(h) ==> self.js.spec_is_object(h),
                    self.js.slab@.len() + spec_responses_growth(pending@) + 16 < 0x7FFF_FFFF,
                decreases pending@.len(),
            {
                proof {
                    assert(responses0.skip(k)[0] == responses0[k]);
                    assert(responses0.skip(k).drop_first() =~= responses0.skip(k + 1));
                    assert(responses0.take(k + 1).drop_last() =~= responses0.take(k));
                    assert(responses0.take(k + 1).last() == responses0[k]);
                    lemma_responses_growth_front(pending@);
                    lemma_responses_growth_nonneg(pending@.drop_first());
                }
                let response = pending.remove(0);
                match self.handle_response(response) {
                    Ok(Some((t, bits))) => {
                        network_cb_args.push((t, false));
                        network_cb_args.push((bits, false));
                        proof {
                            assert(network_cb_args@ =~= spec_event_args(responses0.take(k + 1)));
                            assert(spec_queued_ids(responses0.take(k + 1)) =~= spec_queued_ids(
                                responses0.take(k),
                            ));
                        }
                    },
                    Ok(None) => {
                        proof {
                            assert(spec_event_args(responses0.take(k + 1)) =~= spec_event_args(
                                responses0.take(k),
                            ));
                            assert(self.call_queue@ =~= old(self).call_queue@ + spec_queued_ids(
                                responses0.take(k + 1),
                            ));
                        }
                    },
                    Err(e) => {
                        return Err(e);
                    },
                }
                proof {
                    k = k + 1;
                }
            }
            proof {
                assert(responses0.skip(k).len() == 0);
                assert(k == responses0.len());
                assert(responses0.take(k) =~= responses0);
            }
            if network_cb_args.len() > 0 {
                let ncbid = self.net_callback_id;
                let ra = self.add_pending_event(ncbid, network_cb_args);
                proof {
                    assert(ra is Ok);
                }
            } else {
                proof {
                    assert(spec_event_args(responses0).len() == 0);
                }
            }
        } else {
            proof {
                lemma_responses_growth_nonneg(responses0);
                if old(self).net_active {
                    assert(responses0.len() == 0);
                    assert(spec_queued_ids(responses0).len() == 0);
                    assert(spec_event_args(responses0).len() == 0);
                    assert(self.call_queue@ =~= old(self).call_queue@ + spec_queued_ids(
                        responses0,
                    ));
                }
            }
        }
        proof {
            if !old(self).net_active {
                assert(self.js == old(self).js);
                assert(self.call_queue == old(self).call_queue);
            }
            lemma_responses_contribute(responses0);
        }
        if self.timeout_heap.any_expired_timeouts(now) {
            return Ok(LoopStep::Invoke);
        }
        if self.call_queue.len() > 0 {
            let head = match self.call_queue.pop_front() {
                Some(h) => h,
                None => {
                    proof {
                        assert(false);
                    }
                    return Err(HostError::TypeMismatch);
                },
            };
            proof {
                reveal_strlit("_pendingEvent");
                reveal_strlit("id");
                reveal_strlit("result");
                reveal_strlit("args");
                assert("_pendingEvent"@.len() == 13 && "id"@.len() == 2 && "result"@.len() == 6
                    && "args"@.len() == 4);
                assert("_pendingEvent"@ != "id"@ && "_pendingEvent"@ != "result"@
                    && "_pendingEvent"@ != "args"@);
            }
            match self.js.add_object_value(7, "_pendingEvent", (head, true)) {
                Ok(_) => {},
                Err(e) => {
                    return Err(HostError::from_js(e));
                },
            }
            proof {
                let ev_argsg = if old(self).net_active {
                    spec_event_args(responses0)
                } else {
                    Seq::<(i64, bool)>::empty()
                };
                let growthg = if old(self).net_active {
                    spec_responses_growth(responses0)
                } else {
                    0int
                };
                let bundleg = old(self).js.slab@.len() + growthg;
                if ev_argsg.len() > 0 {
                    assert(0 <= bundleg < self.js.slab@.len());
                    assert(self.js.slab@[bundleg as int] is Object);
                    assert(spec_obj_name(self.js.slab@[bundleg as int]) == "pending_event"@);
                    assert(spec_obj_props(self.js.slab@[bundleg as int])["id"@] == (
                        old(self).net_callback_id,
                        false,
                    ));
                    assert(spec_obj_props(self.js.slab@[bundleg as int])["result"@] == (
                        2i64,
                        true,
                    ));
                    assert(spec_obj_props(self.js.slab@[bundleg as int]).contains_key("args"@));
                    let h = spec_obj_props(self.js.slab@[bundleg as int])["args"@];
                    assert(h.1 && 0 <= h.0 < self.js.slab@.len());
                    assert(self.js.slab@[h.0 as int] matches Value::Array(a) && a@ == ev_argsg);
                }
            }
            return Ok(LoopStep::Invoke);
        }
        match self.timeout_heap.pop_when_expired(now) {
            Some(wait) => {
                proof {
                    crate::timeout_heap::lemma_filter_chain(
                        old(self).timeout_heap.entries@,
                        old(self).timeout_heap.spec_min_live(),
                    );
                }
                return Ok(LoopStep::InvokeAfter(wait));
            },
            None => {},
        }
        if !self.exited {
            self.exited = true;
            let no_args: Vec<(i64, bool)> = Vec::new();
            proof {
                assert(no_args@ =~= Seq::<(i64, bool)>::empty());
            }
            let ra = self.add_pending_event(0, no_args);
            proof {
                assert(ra is Ok);
                let pe = self.call_queue@[0];
                assert(self.call_queue@.len() == 1);
                assert(0 <= pe < self.js.slab@.len());
                assert(self.js.slab@[pe as int] is Object);
                assert(spec_obj_name(self.js.slab@[pe as int]) == "pending_event"@);
                assert(spec_obj_props(self.js.slab@[pe as int])["id"@] == (0i64, false));
                assert(spec_obj_props(self.js.slab@[pe as int])["result"@] == (2i64, true));
                assert(spec_obj_props(self.js.slab@[pe as int]).contains_key("args"@));
                let h = spec_obj_props(self.js.slab@[pe as int])["args"@];
                assert(h.1 && 0 <= h.0 < self.js.slab@.len());
                assert(self.js.slab@[h.0 as int] matches Value::Array(a) && a@ == Seq::<
                    (i64, bool),
                >::empty());
            }
            return Ok(LoopStep::Invoke);
        }
        proof {
            assert(false);
        }
        Ok(LoopStep::Exit)
    }

    /// How the driver should wait for I/O before the next pass: block when
    /// nothing is queued and no timeout is live, wait at most until the
    /// next live timeout, and only drain when an event is already queued.
    /// Cancelled timeouts at the front are discarded on the way.
    pub fn wait_request(&mut self, now: i64) -> (r: WaitKind)
        requires
            old(self).wf(),
            0 <= now,
        ensures
            final(self).wf(),
            final(self).call_queue == old(self).call_queue,
            final(self).js == old(self).js,
            final(self).mem == old(self).mem,
            final(self).exited == old(self).exited,
            r == WaitKind::NoWait <==> old(self).call_queue@.len() > 0,
            old(self).call_queue@.len() == 0 ==> {
                let hl = old(self).timeout_heap.has_live();
                let m = old(self).timeout_heap.spec_min_live();
                &&& !hl ==> r == WaitKind::Block
                &&& hl ==> r == WaitKind::Timeout(
                    (if m.time > now {
                        (m.time - now) as u64
                    } else {
                        0u64
                    }),
                )
            },
    {
        if self.call_queue.len() > 0 {
            return WaitKind::NoWait;
        }
        match self.timeout_heap.duration_when_expired(now) {
            Some(d) => WaitKind::Timeout(d),
            None => WaitKind::Block,
        }
    }
}

/// Turns a string into its UTF-8 bytes.
fn string_to_bytes(s: String) -> (r: Vec<u8>)
    ensures
        r@ == spec_string_bytes(s),
{
    let b = s.as_str().as_bytes();
    let mut out: Vec<u8> = Vec::new();
    let n = b.len();
    let mut i: usize = 0;
    while i < n
        invariant
            0 <= i <= n,
            n == b@.len(),
            b@ == spec_string_bytes(s),
            out@ == b@.take(i as int),
        decreases n - i,
    {
        out.push(b[i]);
        proof {
            assert(b@.take(i as int).push(b@[i as int]) =~= b@.take(i as int + 1));
        }
        i = i + 1;
    }
    proof {
        assert(b@.take(n as int) =~= b@);
    }
    out
}

} // verus!
