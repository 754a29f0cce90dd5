//! Typed views over resource slots, valid only within the borrow window
//! that produced them.

use vstd::prelude::*;

use crate::store::{with_global_set, with_local_set, ResourceIndex, Resources};

verus! {

/// A clone that bypasses the borrow discipline. It duplicates a view of an
/// already-granted borrow without re-checking or re-incrementing the
/// store's borrow state; composition code uses it to materialize a
/// handle's value more than once from one grant. Callers must not use two
/// duplicates as independent exclusive views, and must not let either
/// outlive the borrow window that produced the original.
pub trait UnsafeClone: Sized {
    /// A second view of the same slot, bit-for-bit the same handle.
    fn unsafe_clone(&self) -> (r: Self)
        ensures
            r == *self,
    ;
}

/// Shared borrow of a resource: a read-only view of a global slot, carrying
/// the value the slot held when the view was fetched. Valid only within
/// the shared-borrow window that produced it.
pub struct Res {
    type_id: u64,
    value: u64,
}

impl Res {
    /// The type identity of the resource viewed.
    pub closed spec fn id(self) -> u64 {
        self.type_id
    }

    /// The value viewed.
    pub closed spec fn val(self) -> u64 {
        self.value
    }

    /// Packs a view of a granted shared borrow; fetch code only.
    pub(crate) fn new(type_id: u64, value: u64) -> (r: Res)
        ensures
            r.id() == type_id,
            r.val() == value,
    {
        Res { type_id, value }
    }

    /// The resource value seen through this view.
    pub fn deref(&self) -> (r: u64)
        ensures
            r == self.val(),
    {
        self.value
    }
}

impl UnsafeClone for Res {
    fn unsafe_clone(&self) -> (r: Res) {
        Res { type_id: self.type_id, value: self.value }
    }
}

/// Unique borrow of a resource: a read-write view of a global slot. Valid
/// only while the exclusive-borrow window that produced it is open, which
/// its accessors demand of the store handed back to them.
pub struct ResMut {
    type_id: u64,
}

impl ResMut {
    /// The type identity of the resource viewed.
    pub closed spec fn id(self) -> u64 {
        self.type_id
    }

    /// Packs a view of a granted exclusive borrow; fetch code only.
    pub(crate) fn new(type_id: u64) -> (r: ResMut)
        ensures
            r.id() == type_id,
    {
        ResMut { type_id }
    }

    /// The current value of the viewed slot.
    pub fn deref(&self, resources: &Resources) -> (r: u64)
        requires
            resources@.exclusives[self.id()],
            resources@.globals.dom().contains(self.id()),
        ensures
            r == resources@.globals[self.id()],
    {
        let slot = resources.get_slot(self.type_id, ResourceIndex::Global);
        match slot {
            Some(v) => v,
            None => vstd::pervasive::unreached(),
        }
    }

    /// Writes the viewed slot, leaving every other slot and all borrow
    /// state unchanged.
    pub fn deref_mut(&self, resources: &mut Resources, value: u64)
        requires
            old(resources)@.exclusives[self.id()],
            old(resources)@.globals.dom().contains(self.id()),
        ensures
            final(resources)@ == with_global_set(old(resources)@, self.id(), value),
    {
        resources.write_global(self.type_id, value);
    }
}

impl UnsafeClone for ResMut {
    fn unsafe_clone(&self) -> (r: ResMut) {
        ResMut { type_id: self.type_id }
    }
}

/// Per-system private resource view: a read-write view of the slot owned
/// by one (system, type) pair. Two instances of the same system each have
/// their own slot. Valid only while the exclusive-borrow window that
/// produced it is open.
pub struct Local {
    type_id: u64,
    system_id: u64,
}

impl Local {
    /// The type identity of the resource viewed.
    pub closed spec fn id(self) -> u64 {
        self.type_id
    }

    /// The identity of the system owning the slot viewed.
    pub closed spec fn system(self) -> u64 {
        self.system_id
    }

    /// Packs a view of a granted private borrow; fetch code only.
    pub(crate) fn new(type_id: u64, system_id: u64) -> (r: Local)
        ensures
            r.id() == type_id,
            r.system() == system_id,
    {
        Local { type_id, system_id }
    }

    /// The current value of the viewed private slot.
    pub fn deref(&self, resources: &Resources) -> (r: u64)
        requires
            resources@.exclusives[self.id()],
            resources@.locals.dom().contains((self.system(), self.id())),
        ensures
            r == resources@.locals[(self.system(), self.id())],
    {
        let slot = resources.get_slot(self.type_id, ResourceIndex::System(self.system_id));
        match slot {
            Some(v) => v,
            None => vstd::pervasive::unreached(),
        }
    }

    /// Writes the viewed private slot, leaving every other slot and all
    /// borrow state unchanged.
    pub fn deref_mut(&self, resources: &mut Resources, value: u64)
        requires
            old(resources)@.exclusives[self.id()],
            old(resources)@.locals.dom().contains((self.system(), self.id())),
        ensures
            final(resources)@ == with_local_set(
                old(resources)@,
                self.system(),
                self.id(),
                value,
            ),
    {
        resources.write_local(self.system_id, self.type_id, value);
    }
}

impl UnsafeClone for Local {
    fn unsafe_clone(&self) -> (r: Local) {
        Local { type_id: self.type_id, system_id: self.system_id }
    }
}

} // verus!
