//! The two declarer strategies a handle can use to reach its instance
//! data, and the storage-cell table behind the user declarer.
//!
//! Classes the host runtime itself defines are reached directly through
//! the opaque pointer. Classes merely registered with the runtime keep
//! their instance data in a separate storage cell, keyed by the pointer;
//! reaching the data is a lookup that never takes ownership of the cell.
//! The strategy is fixed per class at generation time and carried as a
//! tag, so a handle never decides it at run time.

use vstd::prelude::*;

verus! {

/// The strategy a generated class uses to reach instance data.
pub trait ClassDeclarer {
    /// True when instance data lives in a registered storage cell rather
    /// than directly behind the opaque pointer.
    fn is_user_declared() -> (b: bool);
}

/// Marker for classes the host runtime itself defines.
pub enum EngineClass {
    Marker,
}

impl ClassDeclarer for EngineClass {
    fn is_user_declared() -> (b: bool)
        ensures
            b == false,
    {
        false
    }
}

/// Marker for classes defined outside the host runtime and registered
/// with it.
pub enum UserClass {
    Marker,
}

impl ClassDeclarer for UserClass {
    fn is_user_declared() -> (b: bool)
        ensures
            b == true,
    {
        true
    }
}

/// A user-declared instance had no storage cell: the registration
/// bookkeeping itself is broken, not the caller.
#[derive(Debug)]
pub struct StorageLookupFailure {
    pub object_ptr: usize,
}

/// The storage-cell table of one user-declared class: instance data keyed
/// by the opaque instance pointer. Every live pointer of the class has
/// exactly one cell here at all times.
pub struct InstanceStorage<T> {
    pub cells: Vec<Option<T>>,
}

impl<T> InstanceStorage<T> {
    /// The pointer has a registered storage cell.
    pub open spec fn has_cell(&self, ptr: int) -> bool {
        0 <= ptr < self.cells@.len() && self.cells@[ptr] is Some
    }

    /// The data registered for the pointer.
    pub open spec fn cell_value(&self, ptr: int) -> T
        recommends
            self.has_cell(ptr),
    {
        match self.cells@[ptr] {
            Some(v) => v,
            None => self.cells@[ptr]->Some_0,
        }
    }

    /// An empty table: no pointer has a cell.
    pub fn new() -> (s: Self)
        ensures
            forall|p: int| !s.has_cell(p),
    {
        InstanceStorage { cells: Vec::new() }
    }

    /// Registers the storage cell for a fresh pointer. Exactly one cell
    /// per pointer: registering over a live cell is bookkeeping
    /// corruption and is ruled out.
    pub fn register(&mut self, ptr: usize, data: T)
        requires
            !old(self).has_cell(ptr as int),
        ensures
            final(self).has_cell(ptr as int),
            final(self).cell_value(ptr as int) == data,
            forall|p: int|
                p != ptr ==> #[trigger] final(self).has_cell(p) == old(self).has_cell(p),
            forall|p: int|
                p != ptr && old(self).has_cell(p) ==> #[trigger] final(self).cell_value(p) == old(
                    self,
                ).cell_value(p),
    {
        while self.cells.len() <= ptr
            invariant
                forall|p: int|
                    #[trigger] self.has_cell(p) == old(self).has_cell(p),
                forall|p: int|
                    old(self).has_cell(p) ==> #[trigger] self.cell_value(p) == old(
                        self,
                    ).cell_value(p),
            decreases ptr + 1 - self.cells.len(),
        {
            let ghost c0 = *self;
            self.cells.push(None);
            proof {
                assert forall|p: int| #[trigger] self.has_cell(p) == c0.has_cell(p) by {
                    if 0 <= p < c0.cells@.len() {
                        assert(self.cells@[p] == c0.cells@[p]);
                    }
                }
                assert forall|p: int| c0.has_cell(p) implies #[trigger] self.cell_value(p)
                    == c0.cell_value(p) by {
                    assert(self.cells@[p] == c0.cells@[p]);
                }
            }
        }
        let ghost c1 = *self;
        self.cells.set(ptr, Some(data));
        proof {
            assert forall|p: int| p != ptr implies #[trigger] self.has_cell(p) == c1.has_cell(
                p,
            ) by {
                if 0 <= p < c1.cells@.len() {
                    assert(self.cells@[p] == c1.cells@[p]);
                }
            }
            assert forall|p: int| p != ptr && c1.has_cell(p) implies #[trigger] self.cell_value(p)
                == c1.cell_value(p) by {
                assert(self.cells@[p] == c1.cells@[p]);
            }
        }
    }

    /// Obtains the instance data behind a registered pointer; a missing
    /// cell is bookkeeping corruption, so only registered pointers are
    /// admitted. The borrow never outlives the table borrow.
    pub fn get(&self, ptr: usize) -> (r: &T)
        requires
            self.has_cell(ptr as int),
        ensures
            *r == self.cell_value(ptr as int),
    {
        match &self.cells[ptr] {
            Some(v) => v,
            None => vstd::pervasive::unreached(),
        }
    }

    /// Obtains the instance data, reporting a missing cell instead of
    /// demanding its presence.
    pub fn try_get(&self, ptr: usize) -> (res: Result<&T, StorageLookupFailure>)
        ensures
            match res {
                Ok(r) => self.has_cell(ptr as int) && *r == self.cell_value(ptr as int),
                Err(e) => !self.has_cell(ptr as int) && e.object_ptr == ptr,
            },
    {
        if ptr < self.cells.len() {
            match &self.cells[ptr] {
                Some(v) => Ok(v),
                None => Err(StorageLookupFailure { object_ptr: ptr }),
            }
        } else {
            Err(StorageLookupFailure { object_ptr: ptr })
        }
    }

    /// Replaces the instance data behind a registered pointer: the
    /// exclusive-access operation of the user declarer.
    pub fn update(&mut self, ptr: usize, data: T)
        requires
            old(self).has_cell(ptr as int),
        ensures
            final(self).has_cell(ptr as int),
            final(self).cell_value(ptr as int) == data,
            forall|p: int|
                p != ptr ==> #[trigger] final(self).has_cell(p) == old(self).has_cell(p),
            forall|p: int|
                p != ptr && old(self).has_cell(p) ==> #[trigger] final(self).cell_value(p) == old(
                    self,
                ).cell_value(p),
    {
        self.cells.set(ptr, Some(data));
    }

    /// Drops the storage cell of a pointer whose instance is gone.
    pub fn unregister(&mut self, ptr: usize)
        requires
            old(self).has_cell(ptr as int),
        ensures
            !final(self).has_cell(ptr as int),
            forall|p: int|
                p != ptr ==> #[trigger] final(self).has_cell(p) == old(self).has_cell(p),
            forall|p: int|
                p != ptr && old(self).has_cell(p) ==> #[trigger] final(self).cell_value(p) == old(
                    self,
                ).cell_value(p),
    {
        self.cells.set(ptr, None);
    }
}

} // verus!
