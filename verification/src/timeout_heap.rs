//! Timeouts keyed by absolute nanosecond deadlines, with stable cancellable
//! ids.
//!
//! An id is allocated when a timeout is added and may be reused once its
//! entry has left the heap. Cancellation is lazy: `remove` only marks the id
//! dead, and the entry is discarded when it surfaces as the minimum. Equal
//! deadlines are ordered by id, so timeouts added at the same instant come
//! out in insertion order.

use vstd::prelude::*;

use crate::util::epoch_ns;

verus! {

/// A pending timeout: an absolute deadline in nanoseconds since the epoch,
/// and the id handed to the caller.
#[derive(Debug, Clone, Copy, PartialEq, Eq, Structural)]
pub struct Timeout {
    pub time: i64,
    pub id: i32,
}

/// What an id slot is currently doing: free for reuse, allocated but
/// cancelled (its entry still sits in the heap), or live.
#[derive(Debug, Clone, Copy, PartialEq, Eq, Structural)]
pub enum IdState {
    Free,
    Dead,
    Live,
}

/// The deadline order: earlier deadlines first, equal deadlines by id.
pub open spec fn spec_lt(a: Timeout, b: Timeout) -> bool {
    a.time < b.time || (a.time == b.time && a.id < b.id)
}

/// The least index at or after `j` holding a free id slot, or the slot
/// count when every one is taken.
pub open spec fn spec_first_free(state: Seq<IdState>, j: int) -> int
    decreases state.len() - j,
{
    if j >= state.len() {
        state.len() as int
    } else if state[j] == IdState::Free {
        j
    } else {
        spec_first_free(state, j + 1)
    }
}

proof fn lemma_first_free_found(state: Seq<IdState>, s: int, j: int)
    requires
        0 <= s <= j < state.len(),
        forall|k: int| s <= k < j ==> state[k] != IdState::Free,
        state[j] == IdState::Free,
    ensures
        spec_first_free(state, s) == j,
    decreases j - s,
{
    if s < j {
        lemma_first_free_found(state, s + 1, j);
    }
}

proof fn lemma_first_free_full(state: Seq<IdState>, s: int)
    requires
        0 <= s <= state.len(),
        forall|k: int| s <= k < state.len() ==> state[k] != IdState::Free,
    ensures
        spec_first_free(state, s) == state.len(),
    decreases state.len() - s,
{
    if s < state.len() {
        lemma_first_free_full(state, s + 1);
    }
}

proof fn lemma_filter_subset(s: Seq<Timeout>, pred: spec_fn(Timeout) -> bool, i: int)
    requires
        0 <= i < s.filter(pred).len(),
    ensures
        s.contains(s.filter(pred)[i]),
    decreases s.len(),
{
    reveal(Seq::filter);
    if s.len() > 0 {
        let sub = s.drop_last().filter(pred);
        if pred(s.last()) && i == s.filter(pred).len() - 1 {
            assert(s.filter(pred)[i] == s.last());
            assert(s[s.len() - 1] == s.last());
        } else {
            lemma_filter_subset(s.drop_last(), pred, i);
            let j = choose|j: int| 0 <= j < s.drop_last().len() && s.drop_last()[j] == sub[i];
            assert(s[j] == sub[i]);
        }
    }
}

proof fn lemma_filter_unique_ids(s: Seq<Timeout>, pred: spec_fn(Timeout) -> bool)
    requires
        forall|i: int, j: int| 0 <= i < j < s.len() ==> s[i].id != s[j].id,
    ensures
        forall|i: int, j: int|
            0 <= i < j < s.filter(pred).len() ==> s.filter(pred)[i].id != s.filter(pred)[j].id,
    decreases s.len(),
{
    reveal(Seq::filter);
    if s.len() > 0 {
        let d = s.drop_last();
        assert(forall|i: int, j: int| 0 <= i < j < d.len() ==> d[i].id != d[j].id);
        lemma_filter_unique_ids(d, pred);
        let sub = d.filter(pred);
        if pred(s.last()) {
            assert forall|i: int, j: int|
                0 <= i < j < s.filter(pred).len() implies s.filter(pred)[i].id != s.filter(
                pred,
            )[j].id by {
                if j == s.filter(pred).len() - 1 {
                    lemma_filter_subset(d, pred, i);
                    let k = choose|k: int| 0 <= k < d.len() && d[k] == sub[i];
                    assert(s[k] == sub[i]);
                    assert(s[s.len() - 1] == s.last());
                }
            }
        }
    }
}

/// Timeouts and their id slots.
#[derive(Debug)]
pub struct TimeoutHeap {
    pub entries: Vec<Timeout>,
    pub state: Vec<IdState>,
}

impl TimeoutHeap {
    /// Whether the entry's id is live (not cancelled).
    pub open spec fn is_live(&self, e: Timeout) -> bool {
        0 <= e.id < self.state@.len() && self.state@[e.id as int] == IdState::Live
    }

    /// Whether some entry in the heap is live.
    pub open spec fn has_live(&self) -> bool {
        exists|k: int| 0 <= k < self.entries@.len() && self.is_live(#[trigger] self.entries@[k])
    }

    /// Whether `m` is the live entry with the least `(deadline, id)`.
    pub open spec fn is_min_live(&self, m: Timeout) -> bool {
        &&& self.entries@.contains(m)
        &&& self.is_live(m)
        &&& forall|k: int|
            0 <= k < self.entries@.len() && self.is_live(#[trigger] self.entries@[k])
                && self.entries@[k] != m ==> spec_lt(m, self.entries@[k])
    }

    /// The live entry that the next pop will surface.
    pub open spec fn spec_min_live(&self) -> Timeout {
        choose|m: Timeout| self.is_min_live(m)
    }

    /// Every entry's id is allocated, ids are not shared, and every
    /// allocated id has its entry in the heap.
    pub open spec fn wf(&self) -> bool {
        &&& forall|i: int, j: int|
            0 <= i < j < self.entries@.len() ==> self.entries@[i].id != self.entries@[j].id
        &&& forall|i: int|
            0 <= i < self.entries@.len() ==> 0 <= (#[trigger] self.entries@[i]).id
                < self.state@.len() && self.state@[self.entries@[i].id as int] != IdState::Free
        &&& forall|id: int|
            0 <= id < self.state@.len() && self.state@[id] != IdState::Free ==> exists|i: int|
                0 <= i < self.entries@.len() && (#[trigger] self.entries@[i]).id == id
    }

    /// Two minimal live entries are the same entry.
    pub proof fn lemma_min_live_unique(&self, m1: Timeout, m2: Timeout)
        requires
            self.is_min_live(m1),
            self.is_min_live(m2),
        ensures
            m1 == m2,
    {
        if m1 != m2 {
            let i1 = choose|i: int| 0 <= i < self.entries@.len() && self.entries@[i] == m1;
            let i2 = choose|i: int| 0 <= i < self.entries@.len() && self.entries@[i] == m2;
            assert(spec_lt(m1, m2) && spec_lt(m2, m1));
        }
    }

    pub fn new() -> (r: Self)
        ensures
            r.wf(),
            r.entries@ == Seq::<Timeout>::empty(),
            r.state@ == Seq::<IdState>::empty(),
    {
        TimeoutHeap { entries: Vec::new(), state: Vec::new() }
    }

    /// The index of the minimal live entry, if any entry is live.
    fn find_min_live(&self) -> (r: Option<usize>)
        requires
            self.wf(),
        ensures
            r is Some <==> self.has_live(),
            r matches Some(i) ==> i < self.entries@.len() && self.is_live(self.entries@[i as int])
                && self.is_min_live(self.entries@[i as int]),
    {
        let n = self.entries.len();
        let mut best: Option<usize> = None;
        let mut j: usize = 0;
        while j < n
            invariant
                self.wf(),
                0 <= j <= n,
                n == self.entries@.len(),
                best is None ==> forall|k: int|
                    0 <= k < j ==> !self.is_live(#[trigger] self.entries@[k]),
                best matches Some(b) ==> b < j && self.is_live(self.entries@[b as int]) && forall|
                    k: int,
                |
                    0 <= k < j && self.is_live(#[trigger] self.entries@[k]) && k != b ==> spec_lt(
                        self.entries@[b as int],
                        self.entries@[k],
                    ),
            decreases n - j,
        {
            let e = self.entries[j];
            let live = e.id >= 0 && (e.id as usize) < self.state.len() && self.state[e.id as usize]
                == IdState::Live;
            if live {
                best = match best {
                    None => Some(j),
                    Some(b) => {
                        let be = self.entries[b];
                        if e.time < be.time || (e.time == be.time && e.id < be.id) {
                            Some(j)
                        } else {
                            Some(b)
                        }
                    },
                };
            }
            j = j + 1;
        }
        proof {
            if best is Some {
                let b = best.unwrap() as int;
                assert forall|k: int|
                    0 <= k < self.entries@.len() && self.is_live(#[trigger] self.entries@[k])
                        && self.entries@[k] != self.entries@[b] implies spec_lt(
                    self.entries@[b],
                    self.entries@[k],
                ) by {
                    if k != b {
                    } else {
                    }
                }
                assert(self.is_min_live(self.entries@[b]));
            }
        }
        best
    }

    /// Allocates the lowest free id slot and marks it live.
    fn alloc_id(&mut self) -> (id: i32)
        requires
            old(self).state@.len() < 0x7FFF_FFFF,
        ensures
            final(self).entries == old(self).entries,
            id == spec_first_free(old(self).state@, 0),
            0 <= id <= old(self).state@.len(),
            id < old(self).state@.len() ==> old(self).state@[id as int] == IdState::Free && final(self).state@ == old(self).state@.update(id as int, IdState::Live),
            id == old(self).state@.len() ==> final(self).state@ == old(self).state@.push(
                IdState::Live,
            ),
    {
        let n = self.state.len();
        let mut j: usize = 0;
        while j < n
            invariant
                0 <= j <= n,
                n == self.state@.len(),
                n < 0x7FFF_FFFF,
                self == old(self),
                forall|k: int| 0 <= k < j ==> self.state@[k] != IdState::Free,
            decreases n - j,
        {
            if self.state[j] == IdState::Free {
                proof {
                    lemma_first_free_found(self.state@, 0, j as int);
                }
                self.state.set(j, IdState::Live);
                return j as i32;
            }
            j = j + 1;
        }
        proof {
            lemma_first_free_full(self.state@, 0);
        }
        self.state.push(IdState::Live);
        n as i32
    }

    /// Adds a timeout with an absolute deadline and returns its fresh id.
    pub fn add_at(&mut self, deadline_ns: i64) -> (id: i32)
        requires
            old(self).wf(),
            old(self).state@.len() < 0x7FFF_FFFF,
        ensures
            final(self).wf(),
            id == spec_first_free(old(self).state@, 0),
            0 <= id <= old(self).state@.len(),
            final(self).entries@ == old(self).entries@.push(Timeout { time: deadline_ns, id }),
            final(self).is_live(Timeout { time: deadline_ns, id }),
            forall|other: int|
                0 <= other < old(self).state@.len() && other != id ==> final(self).state@[other]
                    == old(self).state@[other],
    {
        let id = self.alloc_id();
        proof {
            if (id as int) < old(self).state@.len() {
                assert(old(self).state@[id as int] == IdState::Free);
                assert forall|i: int| 0 <= i < self.entries@.len() implies (#[trigger] self
                    .entries@[i]).id != id by {
                    assert(old(self).state@[self.entries@[i].id as int] != IdState::Free);
                }
            } else {
                assert forall|i: int| 0 <= i < self.entries@.len() implies (#[trigger] self
                    .entries@[i]).id != id by {
                    assert(0 <= self.entries@[i].id < old(self).state@.len());
                }
            }
        }
        self.entries.push(Timeout { time: deadline_ns, id });
        proof {
            let fin = *self;
            assert forall|i: int|
                0 <= i < fin.entries@.len() implies 0 <= (#[trigger] fin.entries@[i]).id
                < fin.state@.len() && fin.state@[fin.entries@[i].id as int] != IdState::Free by {
                if i < fin.entries@.len() - 1 {
                    assert(fin.entries@[i] == old(self).entries@[i]);
                    assert(0 <= fin.entries@[i].id < old(self).state@.len());
                    assert(old(self).state@[fin.entries@[i].id as int] != IdState::Free);
                } else {
                    assert(fin.entries@[i].id == id);
                    assert(fin.state@[id as int] == IdState::Live);
                }
            }
            assert forall|idq: int|
                0 <= idq < fin.state@.len() && fin.state@[idq] != IdState::Free implies exists|
                i: int,
            |
                0 <= i < fin.entries@.len() && (#[trigger] fin.entries@[i]).id == idq by {
                if idq == id {
                    assert(fin.entries@[fin.entries@.len() - 1].id == id);
                } else {
                    assert(old(self).state@[idq] != IdState::Free);
                    let i = choose|i: int|
                        0 <= i < old(self).entries@.len() && (#[trigger] old(self).entries@[i]).id == idq;
                    assert(fin.entries@[i].id == idq);
                }
            }
        }
        id
    }

    /// The deadline `millis` milliseconds after `now` (which is never
    /// negative), saturating at the ends of the `i64` range.
    pub open spec fn spec_deadline(now: i64, millis: i64) -> i64 {
        let scaled: i64 = if millis > i64::MAX / 1_000_000 {
            i64::MAX
        } else if millis < -(i64::MAX / 1_000_000) {
            i64::MIN
        } else {
            (millis * 1_000_000) as i64
        };
        if scaled > 0 && now > i64::MAX - scaled {
            i64::MAX
        } else {
            (now + scaled) as i64
        }
    }

    /// Adds a timeout `millis` milliseconds from now, reading the clock.
    pub fn add(&mut self, millis: i64) -> (id: i32)
        requires
            old(self).wf(),
            old(self).state@.len() < 0x7FFF_FFFF,
        ensures
            final(self).wf(),
            id == spec_first_free(old(self).state@, 0),
            0 <= id <= old(self).state@.len(),
            exists|now: i64|
                0 <= now && final(self).entries@ == old(self).entries@.push(
                    (Timeout { time: Self::spec_deadline(now, millis), id }),
                ),
            final(self).entries@.len() == old(self).entries@.len() + 1,
    {
        let now = epoch_ns();
        let scaled: i64 = if millis > i64::MAX / 1_000_000 {
            i64::MAX
        } else if millis < -(i64::MAX / 1_000_000) {
            i64::MIN
        } else {
            millis * 1_000_000
        };
        let deadline: i64 = if scaled > 0 && now > i64::MAX - scaled {
            i64::MAX
        } else {
            now + scaled
        };
        proof {
            assert(deadline == Self::spec_deadline(now, millis));
        }
        self.add_at(deadline)
    }

    /// Cancels a timeout; its entry stays until it surfaces at the top.
    pub fn remove(&mut self, id: i32)
        requires
            old(self).wf(),
        ensures
            final(self).wf(),
            final(self).entries == old(self).entries,
            final(self).state@ == (if 0 <= id < old(self).state@.len() && old(self).state@[id as int] == IdState::Live {
                old(self).state@.update(id as int, IdState::Dead)
            } else {
                old(self).state@
            }),
            0 <= id < final(self).state@.len() ==> final(self).state@[id as int] != IdState::Live
                || old(self).state@[id as int] != IdState::Live,
            0 <= id < old(self).state@.len() && old(self).state@[id as int] != IdState::Free ==>
                final(self).state@[id as int] != IdState::Live,
    {
        if id >= 0 && (id as usize) < self.state.len() {
            if self.state[id as usize] == IdState::Live {
                self.state.set(id as usize, IdState::Dead);
            }
        }
    }

    /// Drops every entry strictly below `m` in the deadline order (or, with
    /// `strict`, below-or-equal to it), freeing the dropped ids.
    fn drop_entries(&mut self, m: Timeout, strict: bool)
        requires
            old(self).wf(),
        ensures
            final(self).wf(),
            final(self).state@.len() == old(self).state@.len(),
            strict ==> final(self).entries@ == old(self).entries@.filter(
                |e: Timeout| spec_lt(m, e),
            ),
            !strict ==> final(self).entries@ == old(self).entries@.filter(
                |e: Timeout| !spec_lt(e, m),
            ),
            strict ==> forall|id: int|
                0 <= id < old(self).state@.len() ==> final(self).state@[id] == (if (exists|j: int|
                    0 <= j < old(self).entries@.len() && (#[trigger] old(self).entries@[j]).id
                        == id && !spec_lt(m, old(self).entries@[j])) {
                    IdState::Free
                } else {
                    old(self).state@[id]
                }),
            !strict ==> forall|id: int|
                0 <= id < old(self).state@.len() ==> final(self).state@[id] == (if (exists|j: int|
                    0 <= j < old(self).entries@.len() && (#[trigger] old(self).entries@[j]).id
                        == id && spec_lt(old(self).entries@[j], m)) {
                    IdState::Free
                } else {
                    old(self).state@[id]
                }),
    {
        let ghost keep = if strict {
            (|e: Timeout| spec_lt(m, e))
        } else {
            (|e: Timeout| !spec_lt(e, m))
        };
        proof {
            reveal(Seq::filter);
        }
        let n = self.entries.len();
        let mut kept: Vec<Timeout> = Vec::new();
        let mut i: usize = 0;
        while i < n
            invariant
                old(self).wf(),
                0 <= i <= n,
                n == self.entries@.len(),
                self.entries@ == old(self).entries@,
                self.state@.len() == old(self).state@.len(),
                kept@ == old(self).entries@.take(i as int).filter(keep),
                keep == (if strict {
                    (|e: Timeout| spec_lt(m, e))
                } else {
                    (|e: Timeout| !spec_lt(e, m))
                }),
                forall|id: int|
                    0 <= id < old(self).state@.len() ==> self.state@[id] == (if (exists|j: int|
                        0 <= j < i && (#[trigger] old(self).entries@[j]).id == id && !keep(
                            old(self).entries@[j],
                        )) {
                        IdState::Free
                    } else {
                        old(self).state@[id]
                    }),
            decreases n - i,
        {
            let e = self.entries[i];
            let keep_e = if strict {
                m.time < e.time || (m.time == e.time && m.id < e.id)
            } else {
                !(e.time < m.time || (e.time == m.time && e.id < m.id))
            };
            proof {
                reveal(Seq::filter);
                assert(old(self).entries@.take(i as int + 1).drop_last() =~= old(self).entries@.take(i as int));
                assert(old(self).entries@.take(i as int + 1).last() == e);
            }
            if keep_e {
                kept.push(e);
            } else {
                self.state.set(e.id as usize, IdState::Free);
            }
            i = i + 1;
            proof {
                assert(kept@ =~= old(self).entries@.take(i as int).filter(keep));
            }
        }
        proof {
            reveal(Seq::filter);
            assert(old(self).entries@.take(n as int) =~= old(self).entries@);
        }
        self.entries = kept;
        proof {
            let fin = *self;
            let pre = *old(self);
            lemma_filter_unique_ids(pre.entries@, keep);
            assert forall|i2: int|
                0 <= i2 < fin.entries@.len() implies 0 <= (#[trigger] fin.entries@[i2]).id
                < fin.state@.len() && fin.state@[fin.entries@[i2].id as int] != IdState::Free by {
                let e = fin.entries@[i2];
                lemma_filter_subset(pre.entries@, keep, i2);
                pre.entries@.lemma_filter_pred(keep, i2);
                let j = choose|j: int| 0 <= j < pre.entries@.len() && pre.entries@[j] == e;
                assert(0 <= e.id < pre.state@.len() && pre.state@[e.id as int] != IdState::Free);
                if fin.state@[e.id as int] == IdState::Free {
                    let j2 = choose|j2: int|
                        0 <= j2 < pre.entries@.len() && (#[trigger] pre.entries@[j2]).id == e.id
                            && !keep(pre.entries@[j2]);
                    assert(pre.entries@[j2] == pre.entries@[j]);
                }
            }
            assert forall|id: int|
                0 <= id < fin.state@.len() && fin.state@[id] != IdState::Free implies exists|
                i2: int,
            |
                0 <= i2 < fin.entries@.len() && (#[trigger] fin.entries@[i2]).id == id by {
                assert(pre.state@[id] != IdState::Free);
                let j = choose|j: int|
                    0 <= j < pre.entries@.len() && (#[trigger] pre.entries@[j]).id == id;
                assert(keep(pre.entries@[j]));
                pre.entries@.lemma_filter_contains(keep, j);
                let i2 = choose|i2: int|
                    0 <= i2 < fin.entries@.len() && fin.entries@[i2] == pre.entries@[j];
            }
        }
    }

    /// Discards cancelled timeouts from the front of the deadline order,
    /// until the earliest remaining timeout is live (or nothing remains).
    pub fn clean_timeouts(&mut self)
        requires
            old(self).wf(),
        ensures
            final(self).wf(),
            final(self).state@.len() == old(self).state@.len(),
            !old(self).has_live() ==> final(self).entries@.len() == 0,
            !old(self).has_live() ==> forall|k: int|
                0 <= k < final(self).state@.len() ==> final(self).state@[k] == IdState::Free,
            old(self).has_live() ==> old(self).is_min_live(old(self).spec_min_live()) && final(self).entries@ == old(self).entries@.filter(
                |e: Timeout| !spec_lt(e, old(self).spec_min_live()),
            ),
            old(self).has_live() ==> forall|id: int|
                0 <= id < old(self).state@.len() ==> final(self).state@[id] == (if (exists|j: int|
                    0 <= j < old(self).entries@.len() && (#[trigger] old(self).entries@[j]).id
                        == id && spec_lt(old(self).entries@[j], old(self).spec_min_live())) {
                    IdState::Free
                } else {
                    old(self).state@[id]
                }),
            old(self).has_live() ==> final(self).has_live() && final(self).spec_min_live() == old(self).spec_min_live(),
    {
        match self.find_min_live() {
            Some(i) => {
                let m = self.entries[i];
                proof {
                    self.lemma_min_live_unique(m, self.spec_min_live());
                }
                let ghost mi = i as int;
                self.drop_entries(m, false);
                proof {
                    lemma_kept_min_preserved(*old(self), *self, m, mi);
                }
            },
            None => {
                self.free_all();
            },
        }
    }

    /// Drops everything: no entry is live, so the heap drains and every id
    /// is freed.
    fn free_all(&mut self)
        requires
            old(self).wf(),
            !old(self).has_live(),
        ensures
            final(self).wf(),
            final(self).entries@.len() == 0,
            final(self).state@.len() == old(self).state@.len(),
            forall|k: int|
                0 <= k < final(self).state@.len() ==> final(self).state@[k] == IdState::Free,
    {
        let n = self.entries.len();
        let mut i: usize = 0;
        while i < n
            invariant
                old(self).wf(),
                0 <= i <= n,
                n == self.entries@.len(),
                self.entries@ == old(self).entries@,
                self.state@.len() == old(self).state@.len(),
            decreases n - i,
        {
            let e = self.entries[i];
            self.state.set(e.id as usize, IdState::Free);
            i = i + 1;
        }
        let mut j: usize = 0;
        let sn = self.state.len();
        while j < sn
            invariant
                0 <= j <= sn,
                sn == self.state@.len(),
                forall|k: int| 0 <= k < j ==> self.state@[k] == IdState::Free,
            decreases sn - j,
        {
            self.state.set(j, IdState::Free);
            j = j + 1;
        }
        self.entries = Vec::new();
    }

    /// Whether nothing remains; only accurate right after a clean.
    pub fn is_empty(&self) -> (r: bool)
        ensures
            r == (self.entries@.len() == 0),
    {
        self.entries.len() == 0
    }

    /// Discards cancelled timeouts, then pops the earliest live timeout if
    /// its deadline is at or before `now`.
    pub fn any_expired_timeouts(&mut self, now: i64) -> (r: bool)
        requires
            old(self).wf(),
        ensures
            final(self).wf(),
            r <==> (old(self).has_live() && old(self).spec_min_live().time <= now),
            !old(self).has_live() ==> final(self).entries@.len() == 0,
            old(self).has_live() ==> old(self).is_min_live(old(self).spec_min_live()),
            (old(self).has_live() && old(self).spec_min_live().time <= now) ==> final(self).entries@ == old(self).entries@.filter(
                |e: Timeout| spec_lt(old(self).spec_min_live(), e),
            ),
            (old(self).has_live() && old(self).spec_min_live().time > now) ==> final(self).entries@
                == old(self).entries@.filter(|e: Timeout| !spec_lt(e, old(self).spec_min_live())),
            (old(self).has_live() && old(self).spec_min_live().time > now) ==> final(self).has_live() && final(self).spec_min_live() == old(self).spec_min_live(),
            final(self).state@.len() == old(self).state@.len(),
            !old(self).has_live() ==> forall|k: int|
                0 <= k < final(self).state@.len() ==> final(self).state@[k] == IdState::Free,
            (old(self).has_live() && old(self).spec_min_live().time <= now) ==> forall|id: int|
                0 <= id < old(self).state@.len() ==> final(self).state@[id] == (if (exists|j: int|
                    0 <= j < old(self).entries@.len() && (#[trigger] old(self).entries@[j]).id
                        == id && !spec_lt(old(self).spec_min_live(), old(self).entries@[j])) {
                    IdState::Free
                } else {
                    old(self).state@[id]
                }),
            (old(self).has_live() && old(self).spec_min_live().time > now) ==> forall|id: int|
                0 <= id < old(self).state@.len() ==> final(self).state@[id] == (if (exists|j: int|
                    0 <= j < old(self).entries@.len() && (#[trigger] old(self).entries@[j]).id
                        == id && spec_lt(old(self).entries@[j], old(self).spec_min_live())) {
                    IdState::Free
                } else {
                    old(self).state@[id]
                }),
    {
        match self.find_min_live() {
            Some(i) => {
                let m = self.entries[i];
                proof {
                    self.lemma_min_live_unique(m, self.spec_min_live());
                }
                let ghost mi = i as int;
                if m.time <= now {
                    self.drop_entries(m, true);
                    true
                } else {
                    self.drop_entries(m, false);
                    proof {
                        lemma_kept_min_preserved(*old(self), *self, m, mi);
                    }
                    false
                }
            },
            None => {
                self.free_all();
                false
            },
        }
    }

    /// Discards cancelled timeouts; if a live timeout remains, how many
    /// nanoseconds until the earliest one is due (zero if already due).
    pub fn duration_when_expired(&mut self, now: i64) -> (r: Option<u64>)
        requires
            old(self).wf(),
            0 <= now,
        ensures
            final(self).wf(),
            r is Some <==> old(self).has_live(),
            final(self).state@.len() == old(self).state@.len(),
            !old(self).has_live() ==> final(self).entries@.len() == 0,
            !old(self).has_live() ==> forall|k: int|
                0 <= k < final(self).state@.len() ==> final(self).state@[k] == IdState::Free,
            old(self).has_live() ==> {
                let m = old(self).spec_min_live();
                &&& old(self).is_min_live(m)
                &&& r == Some(
                    (if m.time > now {
                        (m.time - now) as u64
                    } else {
                        0u64
                    }),
                )
                &&& final(self).entries@ == old(self).entries@.filter(
                    |e: Timeout| !spec_lt(e, m),
                )
                &&& forall|id: int|
                    0 <= id < old(self).state@.len() ==> final(self).state@[id] == (if (exists|
                        j: int,
                    |
                        0 <= j < old(self).entries@.len() && (#[trigger] old(self).entries@[j]).id == id && spec_lt(old(self).entries@[j], m)) {
                        IdState::Free
                    } else {
                        old(self).state@[id]
                    })
            },
    {
        match self.find_min_live() {
            Some(i) => {
                let m = self.entries[i];
                proof {
                    self.lemma_min_live_unique(m, self.spec_min_live());
                }
                self.drop_entries(m, false);
                if m.time > now {
                    Some((m.time - now) as u64)
                } else {
                    Some(0)
                }
            },
            None => {
                self.free_all();
                None
            },
        }
    }

    /// Pops the earliest live timeout, discarding cancelled ones on the
    /// way, and says how long the caller should sleep before acting on it.
    pub fn pop_when_expired(&mut self, now: i64) -> (r: Option<u64>)
        requires
            old(self).wf(),
            0 <= now,
        ensures
            final(self).wf(),
            r is Some <==> old(self).has_live(),
            final(self).state@.len() == old(self).state@.len(),
            !old(self).has_live() ==> final(self).entries@.len() == 0,
            !old(self).has_live() ==> forall|k: int|
                0 <= k < final(self).state@.len() ==> final(self).state@[k] == IdState::Free,
            old(self).has_live() ==> {
                let m = old(self).spec_min_live();
                &&& old(self).is_min_live(m)
                &&& r == Some(
                    (if m.time > now {
                        (m.time - now) as u64
                    } else {
                        0u64
                    }),
                )
                &&& final(self).entries@ == old(self).entries@.filter(
                    |e: Timeout| spec_lt(m, e),
                )
                &&& forall|id: int|
                    0 <= id < old(self).state@.len() ==> final(self).state@[id] == (if (exists|
                        j: int,
                    |
                        0 <= j < old(self).entries@.len() && (#[trigger] old(self).entries@[j]).id == id && !spec_lt(m, old(self).entries@[j])) {
                        IdState::Free
                    } else {
                        old(self).state@[id]
                    })
            },
    {
        match self.find_min_live() {
            Some(i) => {
                let m = self.entries[i];
                proof {
                    self.lemma_min_live_unique(m, self.spec_min_live());
                }
                self.drop_entries(m, true);
                if m.time > now {
                    Some((m.time - now) as u64)
                } else {
                    Some(0)
                }
            },
            None => {
                self.free_all();
                None
            },
        }
    }
}

impl Timeout {
    /// How many nanoseconds remain until this deadline, zero if past.
    pub fn ns_until_called(&self, now: i64) -> (r: u64)
        requires
            0 <= now,
        ensures
            r == (if self.time > now {
                (self.time - now) as u64
            } else {
                0u64
            }),
    {
        if self.time > now {
            (self.time - now) as u64
        } else {
            0
        }
    }
}



/// After dropping the entries below the minimal live entry `m` (which sat
/// at index `mi`), `m` is still present, live, and minimal.
proof fn lemma_kept_min_preserved(pre: TimeoutHeap, fin: TimeoutHeap, m: Timeout, mi: int)
    requires
        pre.wf(),
        0 <= mi < pre.entries@.len(),
        pre.entries@[mi] == m,
        pre.is_min_live(m),
        fin.entries@ == pre.entries@.filter(|e: Timeout| !spec_lt(e, m)),
        fin.state@.len() == pre.state@.len(),
        forall|id: int|
            0 <= id < pre.state@.len() ==> fin.state@[id] == (if (exists|j: int|
                0 <= j < pre.entries@.len() && (#[trigger] pre.entries@[j]).id == id && spec_lt(
                    pre.entries@[j],
                    m,
                )) {
                IdState::Free
            } else {
                pre.state@[id]
            }),
    ensures
        fin.has_live(),
        fin.is_min_live(m),
        fin.spec_min_live() == m,
{
    let keep = |e: Timeout| !spec_lt(e, m);
    pre.entries@.lemma_filter_contains(keep, mi);
    assert(fin.state@[m.id as int] == pre.state@[m.id as int]) by {
        if fin.state@[m.id as int] != pre.state@[m.id as int] {
            let j2 = choose|j2: int|
                0 <= j2 < pre.entries@.len() && (#[trigger] pre.entries@[j2]).id == m.id
                    && spec_lt(pre.entries@[j2], m);
            assert(pre.entries@[j2] == pre.entries@[mi]);
        }
    }
    assert(fin.is_live(m));
    let fmi = choose|k: int| 0 <= k < fin.entries@.len() && fin.entries@[k] == m;
    assert forall|k: int|
        0 <= k < fin.entries@.len() && fin.is_live(#[trigger] fin.entries@[k]) && fin.entries@[k]
            != m implies spec_lt(m, fin.entries@[k]) by {
        let e = fin.entries@[k];
        lemma_filter_subset(pre.entries@, keep, k);
        pre.entries@.lemma_filter_pred(keep, k);
        if pre.is_live(e) {
            assert(spec_lt(m, e));
        } else {
            if fin.state@[e.id as int] != pre.state@[e.id as int] {
                let j2 = choose|j2: int|
                    0 <= j2 < pre.entries@.len() && (#[trigger] pre.entries@[j2]).id == e.id
                        && spec_lt(pre.entries@[j2], m);
                let je = choose|je: int| 0 <= je < pre.entries@.len() && pre.entries@[je] == e;
                assert(pre.entries@[j2] == pre.entries@[je]);
            }
            assert(false);
        }
    }
    assert(fin.is_min_live(m));
    fin.lemma_min_live_unique(m, fin.spec_min_live());
}

/// Filtering for entries above the minimum after having dropped those
/// below it is the same as filtering for entries above it outright.
pub proof fn lemma_filter_chain(s: Seq<Timeout>, m: Timeout)
    ensures
        s.filter(|e: Timeout| !spec_lt(e, m)).filter(|e: Timeout| spec_lt(m, e)) == s.filter(
            |e: Timeout| spec_lt(m, e),
        ),
    decreases s.len(),
{
    reveal(Seq::filter);
    let p = |e: Timeout| !spec_lt(e, m);
    let q = |e: Timeout| spec_lt(m, e);
    if s.len() == 0 {
    } else {
        lemma_filter_chain(s.drop_last(), m);
        let sub = s.drop_last().filter(p);
        if p(s.last()) {
            assert(s.filter(p) == sub.push(s.last()));
            assert(sub.push(s.last()).drop_last() =~= sub);
            assert(sub.push(s.last()).last() == s.last());
        } else {
            assert(!q(s.last()));
        }
    }
}

/// When every live timeout shares one deadline, the one that pops first is
/// the live one with the least id, which is the order they were added in.
pub proof fn lemma_equal_deadlines_pop_in_id_order(h: TimeoutHeap, t: i64)
    requires
        h.wf(),
        h.has_live(),
        forall|k: int| 0 <= k < h.entries@.len() ==> (#[trigger] h.entries@[k]).time == t,
    ensures
        forall|k: int|
            0 <= k < h.entries@.len() && h.is_live(#[trigger] h.entries@[k]) ==> h.spec_min_live(
            ).id <= h.entries@[k].id,
{
    lemma_min_live_exists(h);
    let m = h.spec_min_live();
    assert(h.entries@.contains(m));
    let im = choose|i: int| 0 <= i < h.entries@.len() && h.entries@[i] == m;
    assert(m.time == t);
}

/// A heap with a live entry has a minimal live entry.
pub proof fn lemma_min_live_exists(h: TimeoutHeap)
    ensures
        h.has_live() ==> h.is_min_live(h.spec_min_live()),
{
    if h.has_live() {
        let min_i = lemma_min_live_prefix(h, h.entries@.len() as int);
        assert forall|k: int|
            0 <= k < h.entries@.len() && h.is_live(#[trigger] h.entries@[k]) && h.entries@[k]
                != h.entries@[min_i] implies spec_lt(h.entries@[min_i], h.entries@[k]) by {}
        assert(h.is_min_live(h.entries@[min_i]));
        h.lemma_min_live_unique(h.entries@[min_i], h.spec_min_live());
    }
}

/// The index of the minimal live entry among the first `n`, by induction.
proof fn lemma_min_live_prefix(h: TimeoutHeap, n: int) -> (i: int)
    requires
        1 <= n <= h.entries@.len(),
        exists|k: int| 0 <= k < n && h.is_live(#[trigger] h.entries@[k]),
    ensures
        0 <= i < n,
        h.is_live(h.entries@[i]),
        forall|k: int|
            0 <= k < n && h.is_live(#[trigger] h.entries@[k]) && h.entries@[k] != h.entries@[i]
                ==> spec_lt(h.entries@[i], h.entries@[k]),
    decreases n,
{
    let last = h.entries@[n - 1];
    if n == 1 {
        0
    } else if exists|k: int| 0 <= k < n - 1 && h.is_live(#[trigger] h.entries@[k]) {
        let j = lemma_min_live_prefix(h, n - 1);
        if h.is_live(last) && last != h.entries@[j] && spec_lt(last, h.entries@[j]) {
            n - 1
        } else {
            j
        }
    } else {
        assert(h.is_live(last));
        n - 1
    }
}

/// A cancelled id is not live, so it can never be the entry that a pop
/// surfaces: the minimal live entry always has some other id.
pub proof fn lemma_removed_id_never_pops(h: TimeoutHeap, id: i32)
    requires
        h.wf(),
        0 <= id < h.state@.len() ==> h.state@[id as int] != IdState::Live,
        h.has_live(),
        h.is_min_live(h.spec_min_live()),
    ensures
        h.spec_min_live().id != id,
{
    let m = h.spec_min_live();
    assert(h.is_live(m));
}

} // verus!
