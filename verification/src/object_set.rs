//! A stable-handle arena.
//!
//! Objects are stored in insertion order under monotonically assigned
//! numeric ids; a handle stays valid until its object is removed, and an
//! id is never reissued.  Handles are tagged by the stored type so that
//! handles to different object kinds cannot be confused.

use vstd::prelude::*;

verus! {

/// A typed handle into an [`ObjectSet`].
#[derive(Debug)]
pub struct ObjectHandle<T> {
    pub id: u64,
    pub marker: core::marker::PhantomData<T>,
}

impl<T> ObjectHandle<T> {
    /// Builds the handle with a given id.
    pub fn from_id(id: u64) -> (r: ObjectHandle<T>)
        ensures
            r.id == id,
    {
        ObjectHandle { id, marker: core::marker::PhantomData }
    }

    /// Whether two handles name the same object.
    pub fn same(&self, other: &ObjectHandle<T>) -> (r: bool)
        ensures
            r == (self.id == other.id),
    {
        self.id == other.id
    }
}

impl<T> Clone for ObjectHandle<T> {
    fn clone(&self) -> (r: Self)
        ensures
            r.id == self.id,
    {
        ObjectHandle { id: self.id, marker: core::marker::PhantomData }
    }
}

impl<T> Copy for ObjectHandle<T> {

}

/// An arena of objects with stable numeric handles.
pub struct ObjectSet<T> {
    pub next_id: u64,
    pub entries: Vec<(u64, T)>,
}

impl<T> ObjectSet<T> {
    /// The stored `(id, object)` entries, in insertion order.
    pub open spec fn entries_seq(self) -> Seq<(u64, T)> {
        self.entries@
    }

    /// The id the next insertion will receive.
    pub open spec fn next(self) -> u64 {
        self.next_id
    }

    /// Well-formedness: ids are strictly increasing and below `next_id`.
    pub open spec fn wf(self) -> bool {
        &&& forall|i: int, j: int|
            0 <= i < j < self.entries@.len() ==> (#[trigger] self.entries@[i]).0 < (
            #[trigger] self.entries@[j]).0
        &&& forall|i: int|
            0 <= i < self.entries@.len() ==> (#[trigger] self.entries@[i]).0 < self.next_id
    }

    /// Whether some entry carries the given id.
    pub open spec fn has(self, id: u64) -> bool {
        exists|i: int| 0 <= i < self.entries@.len() && (#[trigger] self.entries@[i]).0 == id
    }

    /// The position of the entry with the given id.
    pub open spec fn idx(self, id: u64) -> int {
        choose|i: int| 0 <= i < self.entries@.len() && (#[trigger] self.entries@[i]).0 == id
    }

    /// The object stored under the given id.
    pub open spec fn obj(self, id: u64) -> T {
        self.entries@[self.idx(id)].1
    }

    /// Under well-formedness an id names at most one position.
    pub proof fn lemma_idx_is(self, id: u64, i: int)
        requires
            self.wf(),
            0 <= i < self.entries@.len(),
            self.entries@[i].0 == id,
        ensures
            self.has(id),
            self.idx(id) == i,
    {
        assert(self.has(id));
        let j = self.idx(id);
        if j < i {
            assert(self.entries@[j].0 < self.entries@[i].0);
        } else if i < j {
            assert(self.entries@[i].0 < self.entries@[j].0);
        }
    }

    /// Creates an empty arena.
    pub fn new() -> (r: ObjectSet<T>)
        ensures
            r.wf(),
            r.entries_seq().len() == 0,
            r.next() == 0,
    {
        ObjectSet { next_id: 0, entries: Vec::new() }
    }

    /// Number of live objects.
    pub fn len(&self) -> (r: usize)
        ensures
            r == self.entries_seq().len(),
    {
        self.entries.len()
    }

    /// Finds the position of the entry with the handle's id.
    fn find_index(&self, id: u64) -> (r: Option<usize>)
        requires
            self.wf(),
        ensures
            match r {
                Some(i) => self.has(id) && self.idx(id) == i && i < self.entries_seq().len()
                    && self.entries_seq()[i as int].0 == id,
                None => !self.has(id),
            },
    {
        let n = self.entries.len();
        let mut i: usize = 0;
        while i < n
            invariant
                self.wf(),
                n == self.entries@.len(),
                i <= n,
                forall|k: int| 0 <= k < i ==> (#[trigger] self.entries@[k]).0 != id,
            decreases n - i,
        {
            if self.entries[i].0 == id {
                proof {
                    self.lemma_idx_is(id, i as int);
                }
                return Some(i);
            }
            i = i + 1;
        }
        None
    }

    /// Inserts an object, handing back its fresh handle.  When the id
    /// space is exhausted the arena is left unchanged and the returned
    /// handle resolves to no object.
    pub fn insert(&mut self, object: T) -> (h: ObjectHandle<T>)
        requires
            old(self).wf(),
        ensures
            final(self).wf(),
            h.id == old(self).next(),
            old(self).next() < u64::MAX ==> {
                &&& final(self).entries_seq() == old(self).entries_seq().push((h.id, object))
                &&& final(self).next() == old(self).next() + 1
            },
            old(self).next() == u64::MAX ==> *final(self) == *old(self) && !final(self).has(
                h.id,
            ),
    {
        let id = self.next_id;
        if id < u64::MAX {
            self.next_id = id + 1;
            self.entries.push((id, object));
            proof {
                assert forall|i: int, j: int|
                    0 <= i < j < self.entries@.len() implies (#[trigger] self.entries@[i]).0 < (
                    #[trigger] self.entries@[j]).0 by {
                    if j < self.entries@.len() - 1 {
                    } else {
                        assert(self.entries@[j].0 == id);
                    }
                }
            }
        } else {
            proof {
                if self.has(id) {
                    let i = self.idx(id);
                }
            }
        }
        ObjectHandle { id, marker: core::marker::PhantomData }
    }

    /// Looks the object up by handle.
    pub fn get(&self, handle: ObjectHandle<T>) -> (r: Option<&T>)
        requires
            self.wf(),
        ensures
            match r {
                Some(v) => self.has(handle.id) && *v == self.obj(handle.id),
                None => !self.has(handle.id),
            },
    {
        match self.find_index(handle.id) {
            Some(i) => Some(&self.entries[i].1),
            None => None,
        }
    }

    /// Looks the object up by handle, for mutation in place.
    pub fn get_mut(&mut self, handle: ObjectHandle<T>) -> (r: Option<&mut T>)
        requires
            old(self).wf(),
        ensures
            r is Some <==> old(self).has(handle.id),
            r matches Some(v) ==> {
                &&& *v == old(self).obj(handle.id)
                &&& final(self).entries_seq() == old(self).entries_seq().update(
                    old(self).idx(handle.id),
                    (handle.id, *final(v)),
                )
                &&& final(self).next() == old(self).next()
                &&& final(self).wf()
            },
            r is None ==> *final(self) == *old(self),
    {
        match self.find_index(handle.id) {
            Some(i) => {
                let slot = &mut self.entries[i];
                Some(&mut slot.1)
            },
            None => None,
        }
    }

    /// Reads two distinct objects at once.
    pub fn get_pair(&self, h1: ObjectHandle<T>, h2: ObjectHandle<T>) -> (r: Option<(&T, &T)>)
        requires
            self.wf(),
            h1.id != h2.id,
        ensures
            match r {
                Some(p) => self.has(h1.id) && self.has(h2.id) && *p.0 == self.obj(h1.id)
                    && *p.1 == self.obj(h2.id),
                None => !(self.has(h1.id) && self.has(h2.id)),
            },
    {
        match (self.find_index(h1.id), self.find_index(h2.id)) {
            (Some(i), Some(j)) => Some((&self.entries[i].1, &self.entries[j].1)),
            _ => None,
        }
    }

    /// Writes two distinct objects at once; does nothing and reports
    /// `false` unless both handles resolve.
    pub fn set_pair(&mut self, h1: ObjectHandle<T>, h2: ObjectHandle<T>, v1: T, v2: T) -> (r:
        bool)
        requires
            old(self).wf(),
            h1.id != h2.id,
        ensures
            final(self).wf(),
            final(self).next() == old(self).next(),
            r == (old(self).has(h1.id) && old(self).has(h2.id)),
            r ==> final(self).entries_seq() == old(self).entries_seq().update(
                old(self).idx(h1.id),
                (h1.id, v1),
            ).update(old(self).idx(h2.id), (h2.id, v2)),
            !r ==> *final(self) == *old(self),
    {
        let i1 = self.find_index(h1.id);
        let i2 = self.find_index(h2.id);
        match (i1, i2) {
            (Some(i), Some(j)) => {
                let ghost pre = *self;
                let slot1 = &mut self.entries[i];
                slot1.1 = v1;
                let slot2 = &mut self.entries[j];
                slot2.1 = v2;
                proof {
                    assert(self.entries@ =~= pre.entries@.update(i as int, (h1.id, v1)).update(
                        j as int,
                        (h2.id, v2),
                    ));
                    assert forall|a: int, b: int|
                        0 <= a < b < self.entries@.len() implies (
                    #[trigger] self.entries@[a]).0 < (#[trigger] self.entries@[b]).0 by {
                        assert(self.entries@[a].0 == pre.entries@[a].0);
                        assert(self.entries@[b].0 == pre.entries@[b].0);
                    }
                }
                true
            },
            _ => false,
        }
    }

    /// Removes the object named by the handle, handing it back.
    pub fn remove(&mut self, handle: ObjectHandle<T>) -> (r: Option<T>)
        requires
            old(self).wf(),
        ensures
            final(self).wf(),
            final(self).next() == old(self).next(),
            match r {
                Some(v) => old(self).has(handle.id) && v == old(self).obj(handle.id)
                    && final(self).entries_seq() == old(self).entries_seq().remove(
                    old(self).idx(handle.id),
                ),
                None => !old(self).has(handle.id) && *final(self) == *old(self),
            },
            !final(self).has(handle.id),
    {
        match self.find_index(handle.id) {
            Some(i) => {
                let ghost pre = *self;
                let (_, v) = self.entries.remove(i);
                proof {
                    pre.entries@.remove_ensures(i as int);
                    assert forall|a: int, b: int|
                        0 <= a < b < self.entries@.len() implies (
                    #[trigger] self.entries@[a]).0 < (#[trigger] self.entries@[b]).0 by {
                        let pa = if a < i as int {
                            a
                        } else {
                            a + 1
                        };
                        let pb = if b < i as int {
                            b
                        } else {
                            b + 1
                        };
                        assert(self.entries@[a] == pre.entries@[pa]);
                        assert(self.entries@[b] == pre.entries@[pb]);
                    }
                    if self.has(handle.id) {
                        let k = self.idx(handle.id);
                        let pk = if k < i as int {
                            k
                        } else {
                            k + 1
                        };
                        assert(self.entries@[k] == pre.entries@[pk]);
                        pre.lemma_idx_is(handle.id, pk);
                    }
                }
                Some(v)
            },
            None => None,
        }
    }

    /// The handles of all live objects, in insertion order.
    pub fn keys(&self) -> (r: Vec<ObjectHandle<T>>)
        ensures
            r@.len() == self.entries_seq().len(),
            forall|i: int|
                0 <= i < r@.len() ==> (#[trigger] r@[i]).id == self.entries_seq()[i].0,
    {
        let n = self.entries.len();
        let mut out: Vec<ObjectHandle<T>> = Vec::new();
        let mut i: usize = 0;
        while i < n
            invariant
                n == self.entries@.len(),
                i <= n,
                out@.len() == i,
                forall|k: int| 0 <= k < i ==> (#[trigger] out@[k]).id == self.entries@[k].0,
            decreases n - i,
        {
            out.push(ObjectHandle { id: self.entries[i].0, marker: core::marker::PhantomData });
            i = i + 1;
        }
        out
    }

    /// The entry at a position, by insertion order.
    pub fn nth(&self, i: usize) -> (r: &T)
        requires
            i < self.entries_seq().len(),
        ensures
            *r == self.entries_seq()[i as int].1,
    {
        &self.entries[i].1
    }

    /// The id of the entry at a position.
    pub fn nth_id(&self, i: usize) -> (r: u64)
        requires
            i < self.entries_seq().len(),
        ensures
            r == self.entries_seq()[i as int].0,
    {
        self.entries[i].0
    }

    /// The object at a position, for mutation in place; its id stays.
    pub fn nth_mut(&mut self, i: usize) -> (r: &mut T)
        requires
            old(self).wf(),
            i < old(self).entries_seq().len(),
        ensures
            *r == old(self).entries_seq()[i as int].1,
            final(self).entries_seq() == old(self).entries_seq().update(
                i as int,
                (old(self).entries_seq()[i as int].0, *final(r)),
            ),
            final(self).next() == old(self).next(),
            final(self).wf(),
    {
        let slot = &mut self.entries[i];
        &mut slot.1
    }

    /// Overwrites the object at a position, keeping its id.
    pub fn set_nth(&mut self, i: usize, v: T)
        requires
            old(self).wf(),
            i < old(self).entries_seq().len(),
        ensures
            final(self).wf(),
            final(self).next() == old(self).next(),
            final(self).entries_seq() == old(self).entries_seq().update(
                i as int,
                (old(self).entries_seq()[i as int].0, v),
            ),
    {
        let ghost pre = *self;
        let slot = &mut self.entries[i];
        slot.1 = v;
        proof {
            assert(self.entries@ =~= pre.entries@.update(
                i as int,
                (pre.entries@[i as int].0, v),
            ));
            assert forall|a: int, b: int|
                0 <= a < b < self.entries@.len() implies (#[trigger] self.entries@[a]).0 < (
            #[trigger] self.entries@[b]).0 by {
                assert(self.entries@[a].0 == pre.entries@[a].0);
                assert(self.entries@[b].0 == pre.entries@[b].0);
            }
        }
    }
}

impl<T> Default for ObjectSet<T> {
    fn default() -> (r: Self)
        ensures
            r.wf(),
            r.entries_seq().len() == 0,
            r.next() == 0,
    {
        ObjectSet::new()
    }
}

} // verus!
