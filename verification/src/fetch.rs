//! The fetch protocol: every handle kind computes a static access summary,
//! performs `borrow`/`release` against the store, and retrieves a typed
//! view with `get`.

use vstd::prelude::*;

use crate::access::TypeAccess;
use crate::handles::{Local, Res, ResMut};
use crate::store::{
    can_begin_exclusive, can_begin_shared, with_exclusive_begun, with_exclusive_ended,
    with_local_set, with_shared_begun, with_shared_ended, ResourceIndex, Resources, StoreModel,
};

verus! {

/// A resource request that can be fetched from a `Resources` store: it
/// summarizes its access statically, acquires and releases the store's
/// borrow state, and hands out a typed view of the slot.
pub trait FetchResource: Sized {
    /// The typed view `get` hands out.
    type Item;

    /// The set of type identities this fetch reads.
    spec fn reads_spec(&self) -> Set<u64>;

    /// The set of type identities this fetch writes.
    spec fn writes_spec(&self) -> Set<u64>;

    /// Whether the store admits this fetch's borrow.
    spec fn can_borrow(&self, m: StoreModel) -> bool;

    /// The store after this fetch's borrow was granted.
    spec fn borrowed(&self, m: StoreModel) -> StoreModel;

    /// Whether the store records a borrow this fetch may release.
    spec fn can_release(&self, m: StoreModel) -> bool;

    /// The store after this fetch's borrow was released.
    spec fn released(&self, m: StoreModel) -> StoreModel;

    /// What `get` demands of the store and the supplied system identity:
    /// the borrow was granted and the addressed slots exist.
    spec fn get_pre(&self, m: StoreModel, system_id: Option<u64>) -> bool;

    /// How the view `get` returned relates to the store.
    spec fn item_ok(&self, m: StoreModel, system_id: Option<u64>, item: Self::Item) -> bool;

    /// The static access summary; pure, no side effects.
    fn access(&self) -> (r: TypeAccess)
        ensures
            r@.reads == self.reads_spec(),
            r@.writes == self.writes_spec(),
    ;

    /// Requests this fetch's lock discipline from the store. Fails,
    /// leaving the store untouched, exactly when the store's borrow state
    /// conflicts; a failed borrow is terminal for the call, never retried.
    fn borrow(&self, resources: &mut Resources) -> (r: bool)
        ensures
            r == self.can_borrow(old(resources)@),
            r ==> final(resources)@ == self.borrowed(old(resources)@),
            !r ==> final(resources)@ == old(resources)@,
    ;

    /// Undoes exactly the lock state set by the matching `borrow`; must be
    /// paired one to one with it.
    fn release(&self, resources: &mut Resources)
        requires
            self.can_release(old(resources)@),
        ensures
            final(resources)@ == self.released(old(resources)@),
    ;

    /// Retrieves the typed view from the appropriate slot; the borrow must
    /// already have been granted.
    fn get(&self, resources: &Resources, system_id: Option<u64>) -> (r: Self::Item)
        requires
            self.get_pre(resources@, system_id),
        ensures
            self.item_ok(resources@, system_id, r),
    ;
}

/// A resource request as declared by a system; maps to its fetch and
/// prepares per-system state before the system's first run.
pub trait ResourceQuery {
    /// The fetch that serves this query.
    type Fetch;

    /// What `initialize` demands of the supplied system identity.
    spec fn init_pre(&self, system_id: Option<u64>) -> bool;

    /// The store after this query's one-time setup ran.
    spec fn initialized(&self, m: StoreModel, system_id: Option<u64>) -> StoreModel;

    /// One-time setup before a system's first run; creates private state
    /// where the query needs it and is a no-op everywhere else.
    fn initialize(&self, resources: &mut Resources, system_id: Option<u64>)
        requires
            self.init_pre(system_id),
        ensures
            final(resources)@ == self.initialized(old(resources)@, system_id),
    ;
}

/// Fetches a shared resource view: declares a read of its type, takes a
/// shared borrow, and hands out a read-only view of the global slot.
pub struct FetchResourceRead {
    /// The type identity of the resource requested.
    pub type_id: u64,
}

impl FetchResourceRead {
    /// A shared request for the given resource type.
    pub fn new(type_id: u64) -> (r: FetchResourceRead)
        ensures
            r.type_id == type_id,
    {
        FetchResourceRead { type_id }
    }
}

impl FetchResource for FetchResourceRead {
    type Item = Res;

    open spec fn reads_spec(&self) -> Set<u64> {
        Set::empty().insert(self.type_id)
    }

    open spec fn writes_spec(&self) -> Set<u64> {
        Set::empty()
    }

    open spec fn can_borrow(&self, m: StoreModel) -> bool {
        can_begin_shared(m, self.type_id)
    }

    open spec fn borrowed(&self, m: StoreModel) -> StoreModel {
        with_shared_begun(m, self.type_id)
    }

    open spec fn can_release(&self, m: StoreModel) -> bool {
        m.reads[self.type_id] >= 1
    }

    open spec fn released(&self, m: StoreModel) -> StoreModel {
        with_shared_ended(m, self.type_id)
    }

    open spec fn get_pre(&self, m: StoreModel, system_id: Option<u64>) -> bool {
        m.reads[self.type_id] >= 1 && m.globals.dom().contains(self.type_id)
    }

    open spec fn item_ok(&self, m: StoreModel, system_id: Option<u64>, item: Res) -> bool {
        item.id() == self.type_id && item.val() == m.globals[self.type_id]
    }

    fn access(&self) -> (r: TypeAccess) {
        let mut access = TypeAccess::default();
        access.insert_read(self.type_id);
        access
    }

    fn borrow(&self, resources: &mut Resources) -> (r: bool) {
        resources.begin_shared_borrow(self.type_id)
    }

    fn release(&self, resources: &mut Resources) {
        resources.end_shared_borrow(self.type_id);
    }

    fn get(&self, resources: &Resources, system_id: Option<u64>) -> (r: Res) {
        let slot = resources.get_slot(self.type_id, ResourceIndex::Global);
        match slot {
            Some(value) => Res::new(self.type_id, value),
            None => vstd::pervasive::unreached(),
        }
    }
}

impl ResourceQuery for FetchResourceRead {
    type Fetch = FetchResourceRead;

    open spec fn init_pre(&self, system_id: Option<u64>) -> bool {
        true
    }

    open spec fn initialized(&self, m: StoreModel, system_id: Option<u64>) -> StoreModel {
        m
    }

    fn initialize(&self, resources: &mut Resources, system_id: Option<u64>) {
    }
}

/// Fetches a unique resource view: declares a write of its type, takes an
/// exclusive borrow, and hands out a read-write view of the global slot.
pub struct FetchResourceWrite {
    /// The type identity of the resource requested.
    pub type_id: u64,
}

impl FetchResourceWrite {
    /// An exclusive request for the given resource type.
    pub fn new(type_id: u64) -> (r: FetchResourceWrite)
        ensures
            r.type_id == type_id,
    {
        FetchResourceWrite { type_id }
    }
}

impl FetchResource for FetchResourceWrite {
    type Item = ResMut;

    open spec fn reads_spec(&self) -> Set<u64> {
        Set::empty()
    }

    open spec fn writes_spec(&self) -> Set<u64> {
        Set::empty().insert(self.type_id)
    }

    open spec fn can_borrow(&self, m: StoreModel) -> bool {
        can_begin_exclusive(m, self.type_id)
    }

    open spec fn borrowed(&self, m: StoreModel) -> StoreModel {
        with_exclusive_begun(m, self.type_id)
    }

    open spec fn can_release(&self, m: StoreModel) -> bool {
        m.exclusives[self.type_id]
    }

    open spec fn released(&self, m: StoreModel) -> StoreModel {
        with_exclusive_ended(m, self.type_id)
    }

    open spec fn get_pre(&self, m: StoreModel, system_id: Option<u64>) -> bool {
        m.exclusives[self.type_id] && m.globals.dom().contains(self.type_id)
    }

    open spec fn item_ok(&self, m: StoreModel, system_id: Option<u64>, item: ResMut) -> bool {
        item.id() == self.type_id
    }

    fn access(&self) -> (r: TypeAccess) {
        let mut access = TypeAccess::default();
        access.insert_write(self.type_id);
        access
    }

    fn borrow(&self, resources: &mut Resources) -> (r: bool) {
        resources.begin_exclusive_borrow(self.type_id)
    }

    fn release(&self, resources: &mut Resources) {
        resources.end_exclusive_borrow(self.type_id);
    }

    fn get(&self, resources: &Resources, system_id: Option<u64>) -> (r: ResMut) {
        ResMut::new(self.type_id)
    }
}

impl ResourceQuery for FetchResourceWrite {
    type Fetch = FetchResourceWrite;

    open spec fn init_pre(&self, system_id: Option<u64>) -> bool {
        true
    }

    open spec fn initialized(&self, m: StoreModel, system_id: Option<u64>) -> StoreModel {
        m
    }

    fn initialize(&self, resources: &mut Resources, system_id: Option<u64>) {
    }
}

/// The store after a private slot was lazily initialized: the default
/// value is written only where no slot exists yet for the pair.
pub open spec fn with_local_initialized(
    m: StoreModel,
    system_id: u64,
    type_id: u64,
    default_value: u64,
) -> StoreModel {
    if m.locals.dom().contains((system_id, type_id)) {
        m
    } else {
        with_local_set(m, system_id, type_id, default_value)
    }
}

/// Fetches a per-system private resource view: declares a write of its
/// type, takes an exclusive borrow, and hands out a read-write view of
/// the (system, type) slot. The slot is created lazily by `initialize`
/// with a default value fixed at declaration time, standing in for the
/// external default-construction protocol.
pub struct FetchResourceLocalMut {
    /// The type identity of the resource requested.
    pub type_id: u64,
    /// What the default-construction protocol builds for a fresh slot.
    pub default_value: u64,
}

impl FetchResourceLocalMut {
    /// A private request for the given resource type, with the default
    /// value a fresh slot receives.
    pub fn new(type_id: u64, default_value: u64) -> (r: FetchResourceLocalMut)
        ensures
            r.type_id == type_id,
            r.default_value == default_value,
    {
        FetchResourceLocalMut { type_id, default_value }
    }
}

impl FetchResource for FetchResourceLocalMut {
    type Item = Local;

    open spec fn reads_spec(&self) -> Set<u64> {
        Set::empty()
    }

    open spec fn writes_spec(&self) -> Set<u64> {
        Set::empty().insert(self.type_id)
    }

    open spec fn can_borrow(&self, m: StoreModel) -> bool {
        can_begin_exclusive(m, self.type_id)
    }

    open spec fn borrowed(&self, m: StoreModel) -> StoreModel {
        with_exclusive_begun(m, self.type_id)
    }

    open spec fn can_release(&self, m: StoreModel) -> bool {
        m.exclusives[self.type_id]
    }

    open spec fn released(&self, m: StoreModel) -> StoreModel {
        with_exclusive_ended(m, self.type_id)
    }

    open spec fn get_pre(&self, m: StoreModel, system_id: Option<u64>) -> bool {
        &&& m.exclusives[self.type_id]
        &&& system_id is Some
        &&& m.locals.dom().contains((system_id->Some_0, self.type_id))
    }

    open spec fn item_ok(&self, m: StoreModel, system_id: Option<u64>, item: Local) -> bool {
        item.id() == self.type_id && item.system() == system_id->Some_0
    }

    fn access(&self) -> (r: TypeAccess) {
        let mut access = TypeAccess::default();
        access.insert_write(self.type_id);
        access
    }

    fn borrow(&self, resources: &mut Resources) -> (r: bool) {
        resources.begin_exclusive_borrow(self.type_id)
    }

    fn release(&self, resources: &mut Resources) {
        resources.end_exclusive_borrow(self.type_id);
    }

    fn get(&self, resources: &Resources, system_id: Option<u64>) -> (r: Local) {
        match system_id {
            Some(id) => Local::new(self.type_id, id),
            None => vstd::pervasive::unreached(),
        }
    }
}

impl ResourceQuery for FetchResourceLocalMut {
    type Fetch = FetchResourceLocalMut;

    open spec fn init_pre(&self, system_id: Option<u64>) -> bool {
        system_id is Some
    }

    open spec fn initialized(&self, m: StoreModel, system_id: Option<u64>) -> StoreModel {
        with_local_initialized(m, system_id->Some_0, self.type_id, self.default_value)
    }

    fn initialize(&self, resources: &mut Resources, system_id: Option<u64>) {
        match system_id {
            Some(id) => {
                resources.insert_private_slot(id, self.type_id, self.default_value);
            },
            None => vstd::pervasive::unreached(),
        }
    }
}

/// Initializing a private slot twice for the same system writes the
/// default value only on the first call; the second call leaves the
/// stored value, and the whole store, unchanged.
pub proof fn lemma_initialize_idempotent(
    m: StoreModel,
    system_id: u64,
    type_id: u64,
    default_value: u64,
)
    ensures
        with_local_initialized(m, system_id, type_id, default_value).locals[(system_id, type_id)]
            == if m.locals.dom().contains((system_id, type_id)) {
                m.locals[(system_id, type_id)]
            } else {
                default_value
            },
        with_local_initialized(
            with_local_initialized(m, system_id, type_id, default_value),
            system_id,
            type_id,
            default_value,
        ) == with_local_initialized(m, system_id, type_id, default_value),
{
}

} // verus!
