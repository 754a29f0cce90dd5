//! The resource store: slots for global and per-system private values,
//! and the per-type borrow counters that back the runtime safety net.

use vstd::prelude::*;

verus! {

/// Selects which slot a handle addresses: the single global slot of a
/// resource type, or the private slot owned by one system.
#[derive(Clone, Copy, PartialEq, Eq, Structural, Debug)]
pub enum ResourceIndex {
    Global,
    System(u64),
}

/// Borrow bookkeeping for one resource type: how many shared borrows are
/// outstanding and whether an exclusive borrow is outstanding.
#[derive(Clone, Copy, PartialEq, Eq, Structural, Debug)]
pub struct BorrowFlags {
    pub reads: u64,
    pub exclusive: bool,
}

/// Mathematical model of the store. Counters and flags are total over all
/// type identities (zero and clear where no borrow ever happened); the
/// slot maps are partial, their domains being the registered slots.
#[verifier::ext_equal]
pub struct StoreModel {
    /// Outstanding shared borrows per type identity.
    pub reads: Map<u64, nat>,
    /// Outstanding exclusive borrow per type identity.
    pub exclusives: Map<u64, bool>,
    /// Values of the registered global slots, by type identity.
    pub globals: Map<u64, u64>,
    /// Values of the private slots, by (system identity, type identity).
    pub locals: Map<(u64, u64), u64>,
}

impl StoreModel {
    /// The counters and flags cover every type identity. Every view of a
    /// real store satisfies this.
    pub open spec fn wf(self) -> bool {
        &&& self.reads.dom() == Set::<u64>::full()
        &&& self.exclusives.dom() == Set::<u64>::full()
    }
}

/// The model of a store in which nothing was ever registered or borrowed.
pub open spec fn empty_store() -> StoreModel {
    StoreModel {
        reads: Map::new(|ty: u64| true, |ty: u64| 0),
        exclusives: Map::new(|ty: u64| true, |ty: u64| false),
        globals: Map::empty(),
        locals: Map::empty(),
    }
}

/// A shared borrow of the type may begin: no exclusive borrow is
/// outstanding and the counter has room.
pub open spec fn can_begin_shared(m: StoreModel, type_id: u64) -> bool {
    !m.exclusives[type_id] && m.reads[type_id] < u64::MAX
}

/// The store after a shared borrow of the type began.
pub open spec fn with_shared_begun(m: StoreModel, type_id: u64) -> StoreModel {
    StoreModel { reads: m.reads.insert(type_id, m.reads[type_id] + 1), ..m }
}

/// The store after a shared borrow of the type ended.
pub open spec fn with_shared_ended(m: StoreModel, type_id: u64) -> StoreModel {
    StoreModel { reads: m.reads.insert(type_id, (m.reads[type_id] - 1) as nat), ..m }
}

/// An exclusive borrow of the type may begin: no borrow of any kind is
/// outstanding.
pub open spec fn can_begin_exclusive(m: StoreModel, type_id: u64) -> bool {
    !m.exclusives[type_id] && m.reads[type_id] == 0
}

/// The store after an exclusive borrow of the type began.
pub open spec fn with_exclusive_begun(m: StoreModel, type_id: u64) -> StoreModel {
    StoreModel { exclusives: m.exclusives.insert(type_id, true), ..m }
}

/// The store after an exclusive borrow of the type ended.
pub open spec fn with_exclusive_ended(m: StoreModel, type_id: u64) -> StoreModel {
    StoreModel { exclusives: m.exclusives.insert(type_id, false), ..m }
}

/// The store after a global slot was set.
pub open spec fn with_global_set(m: StoreModel, type_id: u64, value: u64) -> StoreModel {
    StoreModel { globals: m.globals.insert(type_id, value), ..m }
}

/// The store after a private slot was set.
pub open spec fn with_local_set(m: StoreModel, system_id: u64, type_id: u64, value: u64) -> StoreModel {
    StoreModel { locals: m.locals.insert((system_id, type_id), value), ..m }
}

/// The value a handle addressed through the given index would see.
pub open spec fn slot_value(m: StoreModel, type_id: u64, index: ResourceIndex) -> Option<u64> {
    match index {
        ResourceIndex::Global => if m.globals.dom().contains(type_id) {
            Some(m.globals[type_id])
        } else {
            None
        },
        ResourceIndex::System(system_id) => if m.locals.dom().contains((system_id, type_id)) {
            Some(m.locals[(system_id, type_id)])
        } else {
            None
        },
    }
}

/// First value associated with the key in a sequence of key/value pairs.
pub open spec fn assoc_find<K, V>(s: Seq<(K, V)>, key: K) -> Option<V>
    decreases s.len(),
{
    if s.len() == 0 {
        None
    } else if s[0].0 == key {
        Some(s[0].1)
    } else {
        assoc_find(s.drop_first(), key)
    }
}

proof fn lemma_assoc_find_at<K, V>(s: Seq<(K, V)>, i: int)
    requires
        0 <= i < s.len(),
        forall|j: int| 0 <= j < i ==> (#[trigger] s[j]).0 != s[i].0,
    ensures
        assoc_find(s, s[i].0) == Some(s[i].1),
    decreases s.len(),
{
    if i == 0 {
    } else {
        assert(s.drop_first()[i - 1] == s[i]);
        assert(forall|j: int| 0 <= j < i - 1 ==> (#[trigger] s.drop_first()[j]).0 != s[i].0);
        lemma_assoc_find_at(s.drop_first(), i - 1);
    }
}

proof fn lemma_assoc_find_absent<K, V>(s: Seq<(K, V)>, key: K)
    requires
        forall|j: int| 0 <= j < s.len() ==> (#[trigger] s[j]).0 != key,
    ensures
        assoc_find(s, key) is None,
    decreases s.len(),
{
    if s.len() > 0 {
        assert(forall|j: int| 0 <= j < s.drop_first().len()
            ==> (#[trigger] s.drop_first()[j]).0 != key);
        lemma_assoc_find_absent(s.drop_first(), key);
    }
}

proof fn lemma_assoc_find_update<K, V>(s: Seq<(K, V)>, i: int, value: V, key: K)
    requires
        0 <= i < s.len(),
        forall|j: int| 0 <= j < i ==> (#[trigger] s[j]).0 != s[i].0,
    ensures
        assoc_find(s.update(i, (s[i].0, value)), key) == if key == s[i].0 {
            Some(value)
        } else {
            assoc_find(s, key)
        },
    decreases s.len(),
{
    let t = s.update(i, (s[i].0, value));
    if i == 0 {
        if key != s[0].0 {
            assert(t.drop_first() =~= s.drop_first());
        }
    } else {
        assert(t[0] == s[0]);
        assert(t.drop_first() =~= s.drop_first().update(i - 1, (s.drop_first()[i - 1].0, value)));
        assert(forall|j: int| 0 <= j < i - 1 ==> (#[trigger] s.drop_first()[j]).0 != s.drop_first()[i - 1].0);
        lemma_assoc_find_update(s.drop_first(), i - 1, value, key);
    }
}

proof fn lemma_assoc_find_push<K, V>(s: Seq<(K, V)>, entry: (K, V), key: K)
    requires
        assoc_find(s, entry.0) is None,
    ensures
        assoc_find(s.push(entry), key) == if key == entry.0 {
            Some(entry.1)
        } else {
            assoc_find(s, key)
        },
    decreases s.len(),
{
    let t = s.push(entry);
    assert(t.len() == s.len() + 1);
    if s.len() == 0 {
        assert(t[0] == entry);
        if key == entry.0 {
            assert(assoc_find(t, key) == Some(entry.1));
        } else {
            assert(t.drop_first() =~= Seq::<(K, V)>::empty());
            assert(assoc_find(t, key) == assoc_find(t.drop_first(), key));
            assert(assoc_find(t.drop_first(), key) is None);
        }
    } else {
        assert(t[0] == s[0]);
        assert(s[0].0 != entry.0);
        assert(t.drop_first() =~= s.drop_first().push(entry));
        lemma_assoc_find_push(s.drop_first(), entry, key);
        if key == s[0].0 {
            assert(assoc_find(t, key) == Some(s[0].1));
            assert(assoc_find(s, key) == Some(s[0].1));
        } else {
            assert(assoc_find(t, key) == assoc_find(s.drop_first().push(entry), key));
            assert(assoc_find(s, key) == assoc_find(s.drop_first(), key));
        }
    }
}

/// Owns the resource slots and the per-type borrow counters. One global
/// slot may exist per resource type, and one private slot per
/// (system identity, type identity) pair.
pub struct Resources {
    borrows: Vec<(u64, BorrowFlags)>,
    globals: Vec<(u64, u64)>,
    locals: Vec<((u64, u64), u64)>,
}

impl View for Resources {
    type V = StoreModel;

    closed spec fn view(&self) -> StoreModel {
        StoreModel {
            reads: Map::new(
                |ty: u64| true,
                |ty: u64| match assoc_find(self.borrows@, ty) {
                    Some(f) => f.reads as nat,
                    None => 0,
                },
            ),
            exclusives: Map::new(
                |ty: u64| true,
                |ty: u64| match assoc_find(self.borrows@, ty) {
                    Some(f) => f.exclusive,
                    None => false,
                },
            ),
            globals: Map::new(
                |ty: u64| assoc_find(self.globals@, ty) is Some,
                |ty: u64| assoc_find(self.globals@, ty)->Some_0,
            ),
            locals: Map::new(
                |k: (u64, u64)| assoc_find(self.locals@, k) is Some,
                |k: (u64, u64)| assoc_find(self.locals@, k)->Some_0,
            ),
        }
    }
}

/// Every store view has total counter and flag maps.
pub proof fn lemma_store_wf(resources: &Resources)
    ensures
        resources@.wf(),
{
    assert(resources@.reads.dom() =~= Set::<u64>::full());
    assert(resources@.exclusives.dom() =~= Set::<u64>::full());
}

impl Resources {
    /// A store with no slots registered and no borrows outstanding.
    pub fn new() -> (r: Resources)
        ensures
            r@ == empty_store(),
    {
        let r = Resources { borrows: Vec::new(), globals: Vec::new(), locals: Vec::new() };
        proof {
            assert(r@.reads =~= empty_store().reads);
            assert(r@.exclusives =~= empty_store().exclusives);
            assert(r@.globals =~= empty_store().globals);
            assert(r@.locals =~= empty_store().locals);
            assert(r@ =~= empty_store());
        }
        r
    }

    /// Index of the borrow bookkeeping entry for the type, if one exists.
    fn find_borrow(&self, type_id: u64) -> (r: Option<usize>)
        ensures
            match r {
                Some(i) => i < self.borrows@.len() && self.borrows@[i as int].0 == type_id
                    && forall|j: int| 0 <= j < i ==> (#[trigger] self.borrows@[j]).0 != type_id,
                None => forall|j: int|
                    0 <= j < self.borrows@.len() ==> (#[trigger] self.borrows@[j]).0 != type_id,
            },
    {
        let mut i: usize = 0;
        while i < self.borrows.len()
            invariant
                i <= self.borrows@.len(),
                forall|j: int| 0 <= j < i ==> (#[trigger] self.borrows@[j]).0 != type_id,
            decreases self.borrows@.len() - i,
        {
            if self.borrows[i].0 == type_id {
                return Some(i);
            }
            i = i + 1;
        }
        None
    }

    /// The borrow flags recorded for the type (zero and clear where no
    /// entry exists).
    fn borrow_flags(&self, type_id: u64) -> (r: BorrowFlags)
        ensures
            r.reads as nat == self@.reads[type_id],
            r.exclusive == self@.exclusives[type_id],
    {
        let found = self.find_borrow(type_id);
        match found {
            Some(i) => {
                let entry = self.borrows[i];
                proof {
                    lemma_assoc_find_at(self.borrows@, i as int);
                }
                entry.1
            },
            None => {
                proof {
                    lemma_assoc_find_absent(self.borrows@, type_id);
                }
                BorrowFlags { reads: 0, exclusive: false }
            },
        }
    }

    /// Records new borrow flags for the type, leaving every other type's
    /// flags and all slots unchanged.
    fn set_borrow_flags(&mut self, type_id: u64, flags: BorrowFlags)
        ensures
            final(self)@ == (StoreModel {
                reads: old(self)@.reads.insert(type_id, flags.reads as nat),
                exclusives: old(self)@.exclusives.insert(type_id, flags.exclusive),
                ..old(self)@
            }),
    {
        let found = self.find_borrow(type_id);
        match found {
            Some(i) => {
                self.borrows[i] = (type_id, flags);
                proof {
                    assert(self.borrows@ =~= old(self).borrows@.update(
                        i as int,
                        (old(self).borrows@[i as int].0, flags),
                    ));
                    assert forall|ty: u64|
                        assoc_find(self.borrows@, ty) == if ty == type_id {
                            Some(flags)
                        } else {
                            assoc_find(old(self).borrows@, ty)
                        } by {
                        lemma_assoc_find_update(old(self).borrows@, i as int, flags, ty);
                    }
                }
            },
            None => {
                self.borrows.push((type_id, flags));
                proof {
                    lemma_assoc_find_absent(old(self).borrows@, type_id);
                    assert forall|ty: u64|
                        assoc_find(self.borrows@, ty) == if ty == type_id {
                            Some(flags)
                        } else {
                            assoc_find(old(self).borrows@, ty)
                        } by {
                        lemma_assoc_find_push(old(self).borrows@, (type_id, flags), ty);
                    }
                }
            },
        }
        proof {
            assert(self@.reads =~= old(self)@.reads.insert(type_id, flags.reads as nat));
            assert(self@.exclusives =~= old(self)@.exclusives.insert(type_id, flags.exclusive));
            assert(self@.globals =~= old(self)@.globals);
            assert(self@.locals =~= old(self)@.locals);
            assert(self@ =~= (StoreModel {
                reads: old(self)@.reads.insert(type_id, flags.reads as nat),
                exclusives: old(self)@.exclusives.insert(type_id, flags.exclusive),
                ..old(self)@
            }));
        }
    }

    /// Increments the type's read counter. Fails, leaving the store
    /// untouched, exactly when an exclusive borrow is outstanding or the
    /// counter has no room.
    pub fn begin_shared_borrow(&mut self, type_id: u64) -> (r: bool)
        ensures
            r == can_begin_shared(old(self)@, type_id),
            r ==> final(self)@ == with_shared_begun(old(self)@, type_id),
            !r ==> final(self)@ == old(self)@,
    {
        let flags = self.borrow_flags(type_id);
        if flags.exclusive || flags.reads == u64::MAX {
            return false;
        }
        self.set_borrow_flags(type_id, BorrowFlags { reads: flags.reads + 1, exclusive: false });
        proof {
            assert(old(self)@.exclusives.insert(type_id, false) =~= old(self)@.exclusives);
            assert(self@ =~= with_shared_begun(old(self)@, type_id));
        }
        true
    }

    /// Decrements the type's read counter; the matching end of one
    /// earlier shared borrow.
    pub fn end_shared_borrow(&mut self, type_id: u64)
        requires
            old(self)@.reads[type_id] >= 1,
        ensures
            final(self)@ == with_shared_ended(old(self)@, type_id),
    {
        let flags = self.borrow_flags(type_id);
        self.set_borrow_flags(
            type_id,
            BorrowFlags { reads: flags.reads - 1, exclusive: flags.exclusive },
        );
        proof {
            assert(old(self)@.exclusives.insert(type_id, old(self)@.exclusives[type_id])
                =~= old(self)@.exclusives);
            assert(self@ =~= with_shared_ended(old(self)@, type_id));
        }
    }

    /// Sets the type's exclusive flag. Fails, leaving the store
    /// untouched, exactly when any borrow of the type is outstanding.
    pub fn begin_exclusive_borrow(&mut self, type_id: u64) -> (r: bool)
        ensures
            r == can_begin_exclusive(old(self)@, type_id),
            r ==> final(self)@ == with_exclusive_begun(old(self)@, type_id),
            !r ==> final(self)@ == old(self)@,
    {
        let flags = self.borrow_flags(type_id);
        if flags.exclusive || flags.reads > 0 {
            return false;
        }
        self.set_borrow_flags(type_id, BorrowFlags { reads: 0, exclusive: true });
        proof {
            assert(old(self)@.reads.insert(type_id, 0) =~= old(self)@.reads);
            assert(self@ =~= with_exclusive_begun(old(self)@, type_id));
        }
        true
    }

    /// Clears the type's exclusive flag; the matching end of an earlier
    /// exclusive borrow.
    pub fn end_exclusive_borrow(&mut self, type_id: u64)
        requires
            old(self)@.exclusives[type_id],
        ensures
            final(self)@ == with_exclusive_ended(old(self)@, type_id),
    {
        let flags = self.borrow_flags(type_id);
        self.set_borrow_flags(type_id, BorrowFlags { reads: flags.reads, exclusive: false });
        proof {
            assert(old(self)@.reads.insert(type_id, old(self)@.reads[type_id])
                =~= old(self)@.reads);
            assert(self@ =~= with_exclusive_ended(old(self)@, type_id));
        }
    }

    /// Outstanding shared borrows of the type.
    pub fn read_count(&self, type_id: u64) -> (r: u64)
        ensures
            r as nat == self@.reads[type_id],
    {
        self.borrow_flags(type_id).reads
    }

    /// Whether an exclusive borrow of the type is outstanding.
    pub fn is_exclusive_borrowed(&self, type_id: u64) -> (r: bool)
        ensures
            r == self@.exclusives[type_id],
    {
        self.borrow_flags(type_id).exclusive
    }

    /// Index of the global slot entry for the type, if one exists.
    fn find_global(&self, type_id: u64) -> (r: Option<usize>)
        ensures
            match r {
                Some(i) => i < self.globals@.len() && self.globals@[i as int].0 == type_id
                    && forall|j: int| 0 <= j < i ==> (#[trigger] self.globals@[j]).0 != type_id,
                None => forall|j: int|
                    0 <= j < self.globals@.len() ==> (#[trigger] self.globals@[j]).0 != type_id,
            },
    {
        let mut i: usize = 0;
        while i < self.globals.len()
            invariant
                i <= self.globals@.len(),
                forall|j: int| 0 <= j < i ==> (#[trigger] self.globals@[j]).0 != type_id,
            decreases self.globals@.len() - i,
        {
            if self.globals[i].0 == type_id {
                return Some(i);
            }
            i = i + 1;
        }
        None
    }

    /// Index of the private slot entry for the pair, if one exists.
    fn find_local(&self, system_id: u64, type_id: u64) -> (r: Option<usize>)
        ensures
            match r {
                Some(i) => i < self.locals@.len()
                    && self.locals@[i as int].0 == (system_id, type_id)
                    && forall|j: int|
                        0 <= j < i ==> (#[trigger] self.locals@[j]).0 != (system_id, type_id),
                None => forall|j: int|
                    0 <= j < self.locals@.len()
                        ==> (#[trigger] self.locals@[j]).0 != (system_id, type_id),
            },
    {
        let mut i: usize = 0;
        while i < self.locals.len()
            invariant
                i <= self.locals@.len(),
                forall|j: int| 0 <= j < i ==> (#[trigger] self.locals@[j]).0 != (system_id, type_id),
            decreases self.locals@.len() - i,
        {
            let key = self.locals[i].0;
            if key.0 == system_id && key.1 == type_id {
                return Some(i);
            }
            i = i + 1;
        }
        None
    }

    /// Registers (or replaces) the global slot of the type. Resources are
    /// registered during setup, before any borrow of them.
    pub fn register_global(&mut self, type_id: u64, value: u64)
        ensures
            final(self)@ == with_global_set(old(self)@, type_id, value),
    {
        let found = self.find_global(type_id);
        match found {
            Some(i) => {
                self.globals[i] = (type_id, value);
                proof {
                    assert(self.globals@ =~= old(self).globals@.update(
                        i as int,
                        (old(self).globals@[i as int].0, value),
                    ));
                    assert forall|ty: u64|
                        assoc_find(self.globals@, ty) == if ty == type_id {
                            Some(value)
                        } else {
                            assoc_find(old(self).globals@, ty)
                        } by {
                        lemma_assoc_find_update(old(self).globals@, i as int, value, ty);
                    }
                }
            },
            None => {
                self.globals.push((type_id, value));
                proof {
                    lemma_assoc_find_absent(old(self).globals@, type_id);
                    assert forall|ty: u64|
                        assoc_find(self.globals@, ty) == if ty == type_id {
                            Some(value)
                        } else {
                            assoc_find(old(self).globals@, ty)
                        } by {
                        lemma_assoc_find_push(old(self).globals@, (type_id, value), ty);
                    }
                }
            },
        }
        proof {
            assert(self@.globals =~= old(self)@.globals.insert(type_id, value));
            assert(self@.reads =~= old(self)@.reads);
            assert(self@.exclusives =~= old(self)@.exclusives);
            assert(self@.locals =~= old(self)@.locals);
            assert(self@ =~= with_global_set(old(self)@, type_id, value));
        }
    }

    /// Overwrites the registered global slot of the type.
    pub fn write_global(&mut self, type_id: u64, value: u64)
        requires
            old(self)@.globals.dom().contains(type_id),
        ensures
            final(self)@ == with_global_set(old(self)@, type_id, value),
    {
        self.register_global(type_id, value);
    }

    /// Creates the private slot of the (system, type) pair. The first
    /// writer wins: a slot that already exists is left untouched.
    pub fn insert_private_slot(&mut self, system_id: u64, type_id: u64, value: u64)
        ensures
            old(self)@.locals.dom().contains((system_id, type_id)) ==> final(self)@ == old(self)@,
            !old(self)@.locals.dom().contains((system_id, type_id))
                ==> final(self)@ == with_local_set(old(self)@, system_id, type_id, value),
    {
        let found = self.find_local(system_id, type_id);
        match found {
            Some(i) => {
                proof {
                    lemma_assoc_find_at(self.locals@, i as int);
                }
            },
            None => {
                proof {
                    lemma_assoc_find_absent(self.locals@, (system_id, type_id));
                }
                self.locals.push(((system_id, type_id), value));
                proof {
                    assert forall|k: (u64, u64)|
                        assoc_find(self.locals@, k) == if k == (system_id, type_id) {
                            Some(value)
                        } else {
                            assoc_find(old(self).locals@, k)
                        } by {
                        lemma_assoc_find_push(
                            old(self).locals@,
                            ((system_id, type_id), value),
                            k,
                        );
                    }
                    assert(self@.locals =~= old(self)@.locals.insert((system_id, type_id), value));
                    assert(self@.reads =~= old(self)@.reads);
                    assert(self@.exclusives =~= old(self)@.exclusives);
                    assert(self@.globals =~= old(self)@.globals);
                    assert(self@ =~= with_local_set(old(self)@, system_id, type_id, value));
                }
            },
        }
    }

    /// Overwrites the existing private slot of the (system, type) pair.
    pub fn write_local(&mut self, system_id: u64, type_id: u64, value: u64)
        requires
            old(self)@.locals.dom().contains((system_id, type_id)),
        ensures
            final(self)@ == with_local_set(old(self)@, system_id, type_id, value),
    {
        let found = self.find_local(system_id, type_id);
        match found {
            Some(i) => {
                self.locals[i] = ((system_id, type_id), value);
                proof {
                    assert(self.locals@ =~= old(self).locals@.update(
                        i as int,
                        (old(self).locals@[i as int].0, value),
                    ));
                    assert forall|k: (u64, u64)|
                        assoc_find(self.locals@, k) == if k == (system_id, type_id) {
                            Some(value)
                        } else {
                            assoc_find(old(self).locals@, k)
                        } by {
                        lemma_assoc_find_update(old(self).locals@, i as int, value, k);
                    }
                    assert(self@.locals =~= old(self)@.locals.insert((system_id, type_id), value));
                    assert(self@.reads =~= old(self)@.reads);
                    assert(self@.exclusives =~= old(self)@.exclusives);
                    assert(self@.globals =~= old(self)@.globals);
                    assert(self@ =~= with_local_set(old(self)@, system_id, type_id, value));
                }
            },
            None => {
                proof {
                    lemma_assoc_find_absent(self.locals@, (system_id, type_id));
                }
                vstd::pervasive::unreached()
            },
        }
    }

    /// The value in the slot the index selects, or nothing where no such
    /// slot was registered.
    pub fn get_slot(&self, type_id: u64, index: ResourceIndex) -> (r: Option<u64>)
        ensures
            r == slot_value(self@, type_id, index),
    {
        match index {
            ResourceIndex::Global => {
                let found = self.find_global(type_id);
                match found {
                    Some(i) => {
                        proof {
                            lemma_assoc_find_at(self.globals@, i as int);
                        }
                        Some(self.globals[i].1)
                    },
                    None => {
                        proof {
                            lemma_assoc_find_absent(self.globals@, type_id);
                        }
                        None
                    },
                }
            },
            ResourceIndex::System(system_id) => {
                let found = self.find_local(system_id, type_id);
                match found {
                    Some(i) => {
                        proof {
                            lemma_assoc_find_at(self.locals@, i as int);
                        }
                        Some(self.locals[i].1)
                    },
                    None => {
                        proof {
                            lemma_assoc_find_absent(self.locals@, (system_id, type_id));
                        }
                        None
                    },
                }
            },
        }
    }
}

/// Beginning and then ending a shared borrow leaves the store's counters
/// and flags (and slots) exactly as they were.
pub proof fn lemma_shared_borrow_roundtrip(m: StoreModel, type_id: u64)
    requires
        m.wf(),
        can_begin_shared(m, type_id),
    ensures
        with_shared_begun(m, type_id).reads[type_id] >= 1,
        with_shared_ended(with_shared_begun(m, type_id), type_id) == m,
{
    assert(m.reads.dom().contains(type_id));
    assert(with_shared_ended(with_shared_begun(m, type_id), type_id).reads =~= m.reads);
    assert(with_shared_ended(with_shared_begun(m, type_id), type_id) =~= m);
}

/// Beginning and then ending an exclusive borrow leaves the store's
/// counters and flags (and slots) exactly as they were.
pub proof fn lemma_exclusive_borrow_roundtrip(m: StoreModel, type_id: u64)
    requires
        m.wf(),
        can_begin_exclusive(m, type_id),
    ensures
        with_exclusive_begun(m, type_id).exclusives[type_id],
        with_exclusive_ended(with_exclusive_begun(m, type_id), type_id) == m,
{
    assert(m.exclusives.dom().contains(type_id));
    assert(with_exclusive_ended(with_exclusive_begun(m, type_id), type_id).exclusives
        =~= m.exclusives);
    assert(with_exclusive_ended(with_exclusive_begun(m, type_id), type_id) =~= m);
}

/// A type's exclusive flag and read counter are never both non-zero: a
/// store that respects the discipline keeps respecting it across every
/// grant and every release.
pub proof fn lemma_discipline_preserved(m: StoreModel, type_id: u64)
    requires
        !(m.exclusives[type_id] && m.reads[type_id] > 0),
    ensures
        can_begin_shared(m, type_id) ==> !(with_shared_begun(m, type_id).exclusives[type_id]
            && with_shared_begun(m, type_id).reads[type_id] > 0),
        can_begin_exclusive(m, type_id) ==> !(with_exclusive_begun(m, type_id).exclusives[type_id]
            && with_exclusive_begun(m, type_id).reads[type_id] > 0),
        m.reads[type_id] >= 1 ==> !(with_shared_ended(m, type_id).exclusives[type_id]
            && with_shared_ended(m, type_id).reads[type_id] > 0),
        !(with_exclusive_ended(m, type_id).exclusives[type_id]
            && with_exclusive_ended(m, type_id).reads[type_id] > 0),
{
}

/// While an exclusive borrow of a type is outstanding, a second exclusive
/// borrow attempt of the same type fails.
pub proof fn lemma_exclusive_excludes_exclusive(m: StoreModel, type_id: u64)
    ensures
        !can_begin_exclusive(with_exclusive_begun(m, type_id), type_id),
{
}

/// While an exclusive borrow of a type is outstanding, a shared borrow
/// attempt of the same type fails.
pub proof fn lemma_exclusive_excludes_shared(m: StoreModel, type_id: u64)
    ensures
        !can_begin_shared(with_exclusive_begun(m, type_id), type_id),
{
}

/// While shared borrows of a type are outstanding, an exclusive borrow
/// attempt of the same type fails, and further shared borrows succeed
/// (as long as the counter has room).
pub proof fn lemma_shared_admits_shared(m: StoreModel, type_id: u64)
    requires
        can_begin_shared(m, type_id),
    ensures
        !can_begin_exclusive(with_shared_begun(m, type_id), type_id),
        m.reads[type_id] + 1 < u64::MAX ==> can_begin_shared(with_shared_begun(m, type_id), type_id),
{
}

} // verus!
