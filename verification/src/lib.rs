//! Host-side embedding layer for a WebAssembly guest that expects a
//! JavaScript-style runtime: little-endian byte codecs, a bounds-checked view
//! of the guest's linear memory, a slab of emulated JS values with the tagged
//! 8-byte slot encoding, a timeout min-heap with cancellable ids, and the
//! cooperative event loop that keeps guest, pending events and I/O responses
//! in lockstep.

use vstd::prelude::*;

pub mod args;
pub mod bytes;
pub mod imports;
pub mod io;
pub mod js;
pub mod mem;
pub mod pool;
pub mod shared_state;
pub mod timeout_heap;
pub mod util;

use crate::js::Js;
use crate::timeout_heap::TimeoutHeap;

verus! {

/// A reduced instance for guests that use only the scheduler bridge: the
/// value slab, the exit flag, and the timeout heap, without networking.
#[derive(Debug)]
pub struct Wasabi {
    pub js: Js,
    pub exited: bool,
    pub timeout_heap: TimeoutHeap,
}

impl Wasabi {
    /// A fresh instance with the interned slab and an empty heap.
    pub fn new() -> (r: Wasabi)
        ensures
            r.js.wf(),
            r.timeout_heap.wf(),
            !r.exited,
            r.timeout_heap.entries@ == Seq::<crate::timeout_heap::Timeout>::empty(),
            r.js.slab@.len() == 41,
            r.js.slab@[0] is NaN,
            r.js.slab@[2] is Null,
            r.js.slab@[3] is True,
            r.js.slab@[4] is False,
    {
        let js = match Js::new() {
            Ok(js) => js,
            Err(_) => {
                proof {
                    assert(false);
                }
                vstd::pervasive::unreached()
            },
        };
        Wasabi { js, exited: false, timeout_heap: TimeoutHeap::new() }
    }

    /// One scheduler pass: if a live timeout remains, pop the earliest one
    /// and say how long to sleep before calling the guest's scheduler
    /// (zero when it is already due); otherwise there is nothing to run.
    pub fn process_event_loop(&mut self, now: i64) -> (r: Option<u64>)
        requires
            old(self).timeout_heap.wf(),
            0 <= now,
        ensures
            final(self).timeout_heap.wf(),
            final(self).js == old(self).js,
            final(self).exited == old(self).exited,
            r is Some <==> old(self).timeout_heap.has_live(),
            old(self).timeout_heap.has_live() ==> ({
                let m = old(self).timeout_heap.spec_min_live();
                &&& old(self).timeout_heap.is_min_live(m)
                &&& r == Some(
                    (if m.time > now {
                        (m.time - now) as u64
                    } else {
                        0u64
                    }),
                )
                &&& final(self).timeout_heap.entries@ == old(self).timeout_heap.entries@.filter(
                    |e: crate::timeout_heap::Timeout| crate::timeout_heap::spec_lt(m, e),
                )
            }),
            !old(self).timeout_heap.has_live() ==> final(self).timeout_heap.entries@.len() == 0,
    {
        if self.timeout_heap.any_expired_timeouts(now) {
            proof {
                crate::timeout_heap::lemma_filter_chain(
                    old(self).timeout_heap.entries@,
                    old(self).timeout_heap.spec_min_live(),
                );
            }
            return Some(0);
        }
        match self.timeout_heap.pop_when_expired(now) {
            Some(wait) => {
                proof {
                    crate::timeout_heap::lemma_filter_chain(
                        old(self).timeout_heap.entries@,
                        old(self).timeout_heap.spec_min_live(),
                    );
                }
                Some(wait)
            },
            None => None,
        }
    }
}

} // verus!
