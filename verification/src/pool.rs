//! An arena of optional slots yielding small integer ids.
//!
//! `pointer` is the id the next `add` will use. After an `add` it moves
//! forward to the next free slot it can see; a `remove` pulls it back, so
//! freed ids are handed out again. The scan stops at the last slot even when
//! that slot is occupied, a quirk that callers observe through `next_id`.

use vstd::prelude::*;

verus! {

#[derive(Debug)]
pub struct Pool<T> {
    pointer: usize,
    items: Vec<Option<T>>,
}

/// The least index at or after `j` holding `None`, or `items.len() - 1` when
/// every slot from `j` on is occupied.
pub open spec fn first_free_from<T>(items: Seq<Option<T>>, j: int) -> int
    decreases items.len() - j,
{
    if j >= items.len() {
        items.len() - 1
    } else if items[j] is None {
        j
    } else {
        first_free_from(items, j + 1)
    }
}

proof fn lemma_first_free_from_found<T>(items: Seq<Option<T>>, s: int, j: int)
    requires
        0 <= s <= j < items.len(),
        forall|k: int| s <= k < j ==> items[k] is Some,
        items[j] is None,
    ensures
        first_free_from(items, s) == j,
    decreases j - s,
{
    if s < j {
        lemma_first_free_from_found(items, s + 1, j);
    }
}

proof fn lemma_first_free_from_full<T>(items: Seq<Option<T>>, s: int)
    requires
        0 <= s <= items.len(),
        forall|k: int| s <= k < items.len() ==> items[k] is Some,
    ensures
        first_free_from(items, s) == items.len() - 1,
    decreases items.len() - s,
{
    if s < items.len() {
        lemma_first_free_from_full(items, s + 1);
    }
}

impl<T> Pool<T> {
    /// The slots, free ones as `None`.
    pub closed spec fn items(&self) -> Seq<Option<T>> {
        self.items@
    }

    /// The id the next `add` will return.
    pub closed spec fn pointer(&self) -> int {
        self.pointer as int
    }

    /// Every id below the pointer is occupied, and the pointer never runs
    /// past the end of the slots.
    pub open spec fn wf(&self) -> bool {
        &&& self.pointer() <= self.items().len()
        &&& forall|j: int| 0 <= j < self.pointer() ==> self.items()[j] is Some
    }

    pub fn new() -> (r: Self)
        ensures
            r.wf(),
            r.items() == Seq::<Option<T>>::empty(),
            r.pointer() == 0,
    {
        Self { pointer: 0, items: Vec::new() }
    }

    /// Stores `nt` at the pointer and returns that id, moving the pointer to
    /// the next free slot it finds (stopping at the last slot otherwise).
    pub fn add(&mut self, nt: T) -> (id: usize)
        requires
            old(self).wf(),
        ensures
            final(self).wf(),
            id == old(self).pointer(),
            old(self).pointer() == old(self).items().len() ==> {
                &&& final(self).items() =~= old(self).items().push(Some(nt))
                &&& final(self).pointer() == old(self).pointer() + 1
            },
            old(self).pointer() < old(self).items().len() ==> {
                &&& final(self).items() =~= old(self).items().update(old(self).pointer(), Some(nt))
                &&& final(self).pointer() == first_free_from(
                    final(self).items(),
                    old(self).pointer() + 1,
                )
            },
    {
        let id = self.pointer;
        if self.pointer == self.items.len() {
            self.items.push(Some(nt));
            self.pointer = self.items.len();
        } else {
            self.items.set(self.pointer, Some(nt));
            let ghost items_after = self.items@;
            let mut j = self.pointer + 1;
            while j < self.items.len()
                invariant
                    id == old(self).pointer(),
                    id + 1 <= j <= self.items@.len(),
                    self.pointer == id,
                    id < old(self).items().len(),
                    items_after == old(self).items().update(id as int, Some(nt)),
                    self.items@ == items_after,
                    forall|k: int| 0 <= k < id ==> self.items@[k] is Some,
                    forall|k: int| id + 1 <= k < j ==> self.items@[k] is Some,
                decreases self.items@.len() - j,
            {
                let is_free = match &self.items[j] {
                    None => true,
                    Some(_) => false,
                };
                if is_free {
                    self.pointer = j;
                    proof {
                        lemma_first_free_from_found(self.items@, id + 1, j as int);
                    }
                    return id;
                }
                j = j + 1;
            }
            self.pointer = self.items.len() - 1;
            proof {
                lemma_first_free_from_full(self.items@, id + 1);
            }
        }
        id
    }

    /// The id the next `add` will return.
    pub fn next_id(&self) -> (r: usize)
        ensures
            r == self.pointer(),
    {
        self.pointer
    }

    pub fn get(&self, i: usize) -> (r: Option<&T>)
        ensures
            i < self.items().len() && self.items()[i as int] is Some ==> r is Some && *r.unwrap()
                == self.items()[i as int].unwrap(),
            !(i < self.items().len() && self.items()[i as int] is Some) ==> r is None,
    {
        if i >= self.items.len() {
            return None;
        }
        match &self.items[i] {
            Some(t) => Some(t),
            None => None,
        }
    }

    pub fn get_mut(&mut self, i: usize) -> (r: Option<&mut T>)
        ensures
            final(self).pointer() == old(self).pointer(),
            i < old(self).items().len() && old(self).items()[i as int] is Some ==> r is Some
                && *r.unwrap() == old(self).items()[i as int].unwrap() && final(self).items()
                =~= old(self).items().update(i as int, Some(*final(r.unwrap()))),
            !(i < old(self).items().len() && old(self).items()[i as int] is Some) ==> r is None
                && final(self).items() =~= old(self).items(),
    {
        if i >= self.items.len() {
            return None;
        }
        let slot = &mut self.items[i];
        slot.as_mut()
    }

    /// Whether no id was ever handed out or the pointer has been pulled back
    /// to the start; this is about the pointer, not about live entries.
    pub fn is_empty(&self) -> (r: bool)
        ensures
            r == (self.pointer() == 0),
    {
        self.pointer == 0
    }

    /// Frees the slot `i` and pulls the pointer back to it if it was ahead.
    pub fn remove(&mut self, i: usize)
        requires
            old(self).wf(),
            i < old(self).items().len(),
        ensures
            final(self).wf(),
            final(self).items() =~= old(self).items().update(i as int, None),
            final(self).pointer() == if i < old(self).pointer() {
                i as int
            } else {
                old(self).pointer()
            },
    {
        self.items.set(i, None);
        if i < self.pointer {
            self.pointer = i;
        }
    }
}

} // verus!
