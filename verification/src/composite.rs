//! Composing an ordered, heterogeneous group of fetch requests into one
//! fetch: access summaries union, borrows are acquired in declaration
//! order, and releases undo exactly what the matching borrow acquired.

use vstd::prelude::*;

use crate::access::TypeAccess;
use crate::fetch::{
    FetchResource, FetchResourceLocalMut, FetchResourceRead, FetchResourceWrite, ResourceQuery,
};
use crate::handles::{Local, Res, ResMut, UnsafeClone};
use crate::store::{
    can_begin_exclusive, can_begin_shared, lemma_exclusive_borrow_roundtrip, lemma_shared_borrow_roundtrip,
    lemma_store_wf, with_exclusive_begun, with_shared_begun, Resources, StoreModel,
};

verus! {

/// One element of a composite group: any of the three fetch kinds.
pub enum FetchKind {
    /// A shared request.
    Read(FetchResourceRead),
    /// An exclusive request.
    Write(FetchResourceWrite),
    /// A per-system private request.
    LocalMut(FetchResourceLocalMut),
}

/// One element of the ordered group a composite `get` returns.
pub enum FetchItem {
    /// The view a shared request fetched.
    Res(Res),
    /// The view an exclusive request fetched.
    ResMut(ResMut),
    /// The view a private request fetched.
    Local(Local),
}

impl UnsafeClone for FetchItem {
    fn unsafe_clone(&self) -> (r: FetchItem) {
        match self {
            FetchItem::Res(item) => FetchItem::Res(item.unsafe_clone()),
            FetchItem::ResMut(item) => FetchItem::ResMut(item.unsafe_clone()),
            FetchItem::Local(item) => FetchItem::Local(item.unsafe_clone()),
        }
    }
}

impl FetchResource for FetchKind {
    type Item = FetchItem;

    open spec fn reads_spec(&self) -> Set<u64> {
        match *self {
            FetchKind::Read(f) => f.reads_spec(),
            FetchKind::Write(f) => f.reads_spec(),
            FetchKind::LocalMut(f) => f.reads_spec(),
        }
    }

    open spec fn writes_spec(&self) -> Set<u64> {
        match *self {
            FetchKind::Read(f) => f.writes_spec(),
            FetchKind::Write(f) => f.writes_spec(),
            FetchKind::LocalMut(f) => f.writes_spec(),
        }
    }

    open spec fn can_borrow(&self, m: StoreModel) -> bool {
        match *self {
            FetchKind::Read(f) => f.can_borrow(m),
            FetchKind::Write(f) => f.can_borrow(m),
            FetchKind::LocalMut(f) => f.can_borrow(m),
        }
    }

    open spec fn borrowed(&self, m: StoreModel) -> StoreModel {
        match *self {
            FetchKind::Read(f) => f.borrowed(m),
            FetchKind::Write(f) => f.borrowed(m),
            FetchKind::LocalMut(f) => f.borrowed(m),
        }
    }

    open spec fn can_release(&self, m: StoreModel) -> bool {
        match *self {
            FetchKind::Read(f) => f.can_release(m),
            FetchKind::Write(f) => f.can_release(m),
            FetchKind::LocalMut(f) => f.can_release(m),
        }
    }

    open spec fn released(&self, m: StoreModel) -> StoreModel {
        match *self {
            FetchKind::Read(f) => f.released(m),
            FetchKind::Write(f) => f.released(m),
            FetchKind::LocalMut(f) => f.released(m),
        }
    }

    open spec fn get_pre(&self, m: StoreModel, system_id: Option<u64>) -> bool {
        match *self {
            FetchKind::Read(f) => f.get_pre(m, system_id),
            FetchKind::Write(f) => f.get_pre(m, system_id),
            FetchKind::LocalMut(f) => f.get_pre(m, system_id),
        }
    }

    open spec fn item_ok(&self, m: StoreModel, system_id: Option<u64>, item: FetchItem) -> bool {
        match *self {
            FetchKind::Read(f) => item is Res && f.item_ok(m, system_id, item->Res_0),
            FetchKind::Write(f) => item is ResMut && f.item_ok(m, system_id, item->ResMut_0),
            FetchKind::LocalMut(f) => item is Local && f.item_ok(m, system_id, item->Local_0),
        }
    }

    fn access(&self) -> (r: TypeAccess) {
        match self {
            FetchKind::Read(f) => f.access(),
            FetchKind::Write(f) => f.access(),
            FetchKind::LocalMut(f) => f.access(),
        }
    }

    fn borrow(&self, resources: &mut Resources) -> (r: bool) {
        match self {
            FetchKind::Read(f) => f.borrow(resources),
            FetchKind::Write(f) => f.borrow(resources),
            FetchKind::LocalMut(f) => f.borrow(resources),
        }
    }

    fn release(&self, resources: &mut Resources) {
        match self {
            FetchKind::Read(f) => f.release(resources),
            FetchKind::Write(f) => f.release(resources),
            FetchKind::LocalMut(f) => f.release(resources),
        }
    }

    fn get(&self, resources: &Resources, system_id: Option<u64>) -> (r: FetchItem) {
        match self {
            FetchKind::Read(f) => FetchItem::Res(f.get(resources, system_id)),
            FetchKind::Write(f) => FetchItem::ResMut(f.get(resources, system_id)),
            FetchKind::LocalMut(f) => FetchItem::Local(f.get(resources, system_id)),
        }
    }
}

impl ResourceQuery for FetchKind {
    type Fetch = FetchKind;

    open spec fn init_pre(&self, system_id: Option<u64>) -> bool {
        match *self {
            FetchKind::Read(f) => f.init_pre(system_id),
            FetchKind::Write(f) => f.init_pre(system_id),
            FetchKind::LocalMut(f) => f.init_pre(system_id),
        }
    }

    open spec fn initialized(&self, m: StoreModel, system_id: Option<u64>) -> StoreModel {
        match *self {
            FetchKind::Read(f) => f.initialized(m, system_id),
            FetchKind::Write(f) => f.initialized(m, system_id),
            FetchKind::LocalMut(f) => f.initialized(m, system_id),
        }
    }

    fn initialize(&self, resources: &mut Resources, system_id: Option<u64>) {
        match self {
            FetchKind::Read(f) => f.initialize(resources, system_id),
            FetchKind::Write(f) => f.initialize(resources, system_id),
            FetchKind::LocalMut(f) => f.initialize(resources, system_id),
        }
    }
}

/// The union of the groups' declared read sets, in declaration order.
pub open spec fn group_reads(s: Seq<FetchKind>) -> Set<u64>
    decreases s.len(),
{
    if s.len() == 0 {
        Set::empty()
    } else {
        group_reads(s.drop_last()).union(s.last().reads_spec())
    }
}

/// The union of the groups' declared write sets, in declaration order.
pub open spec fn group_writes(s: Seq<FetchKind>) -> Set<u64>
    decreases s.len(),
{
    if s.len() == 0 {
        Set::empty()
    } else {
        group_writes(s.drop_last()).union(s.last().writes_spec())
    }
}

/// The store after every element's borrow was granted, in declaration
/// order.
pub open spec fn group_borrowed(s: Seq<FetchKind>, m: StoreModel) -> StoreModel
    decreases s.len(),
{
    if s.len() == 0 {
        m
    } else {
        s.last().borrowed(group_borrowed(s.drop_last(), m))
    }
}

/// Whether the store admits every element's borrow, each taken against
/// the state the elements before it left behind.
pub open spec fn group_can_borrow(s: Seq<FetchKind>, m: StoreModel) -> bool
    decreases s.len(),
{
    if s.len() == 0 {
        true
    } else {
        group_can_borrow(s.drop_last(), m) && s.last().can_borrow(group_borrowed(s.drop_last(), m))
    }
}

/// The store after every element's borrow was released, in reverse
/// declaration order.
pub open spec fn group_released(s: Seq<FetchKind>, m: StoreModel) -> StoreModel
    decreases s.len(),
{
    if s.len() == 0 {
        m
    } else {
        group_released(s.drop_last(), s.last().released(m))
    }
}

/// Whether the store records a borrow each element may release, in
/// reverse declaration order.
pub open spec fn group_can_release(s: Seq<FetchKind>, m: StoreModel) -> bool
    decreases s.len(),
{
    if s.len() == 0 {
        true
    } else {
        s.last().can_release(m) && group_can_release(s.drop_last(), s.last().released(m))
    }
}

/// The store after every element's one-time setup ran, in declaration
/// order.
pub open spec fn group_initialized(s: Seq<FetchKind>, m: StoreModel, system_id: Option<u64>) -> StoreModel
    decreases s.len(),
{
    if s.len() == 0 {
        m
    } else {
        s.last().initialized(group_initialized(s.drop_last(), m, system_id), system_id)
    }
}

/// Every element's setup precondition.
pub open spec fn group_init_pre(s: Seq<FetchKind>, system_id: Option<u64>) -> bool {
    forall|j: int| 0 <= j < s.len() ==> (#[trigger] s[j]).init_pre(system_id)
}

/// Every element's fetch precondition.
pub open spec fn group_get_pre(s: Seq<FetchKind>, m: StoreModel, system_id: Option<u64>) -> bool {
    forall|j: int| 0 <= j < s.len() ==> (#[trigger] s[j]).get_pre(m, system_id)
}

/// Granting one element's borrow keeps the counter and flag maps total.
proof fn lemma_kind_wf(f: FetchKind, m: StoreModel)
    requires
        m.wf(),
    ensures
        f.borrowed(m).wf(),
        f.released(m).wf(),
{
    assert(f.borrowed(m).reads.dom() =~= Set::<u64>::full());
    assert(f.borrowed(m).exclusives.dom() =~= Set::<u64>::full());
    assert(f.released(m).reads.dom() =~= Set::<u64>::full());
    assert(f.released(m).exclusives.dom() =~= Set::<u64>::full());
}

/// Releasing one element's granted borrow restores the store exactly.
proof fn lemma_kind_borrow_roundtrip(f: FetchKind, m: StoreModel)
    requires
        m.wf(),
        f.can_borrow(m),
    ensures
        f.can_release(f.borrowed(m)),
        f.released(f.borrowed(m)) == m,
{
    match f {
        FetchKind::Read(inner) => lemma_shared_borrow_roundtrip(m, inner.type_id),
        FetchKind::Write(inner) => lemma_exclusive_borrow_roundtrip(m, inner.type_id),
        FetchKind::LocalMut(inner) => lemma_exclusive_borrow_roundtrip(m, inner.type_id),
    }
}

/// Granting a whole group's borrows keeps the counter and flag maps total.
pub proof fn lemma_group_wf(s: Seq<FetchKind>, m: StoreModel)
    requires
        m.wf(),
    ensures
        group_borrowed(s, m).wf(),
    decreases s.len(),
{
    if s.len() > 0 {
        lemma_group_wf(s.drop_last(), m);
        lemma_kind_wf(s.last(), group_borrowed(s.drop_last(), m));
    }
}

/// A group's `borrow` followed by its `release` leaves the store's
/// counters, flags and slots exactly as they were before the borrow.
pub proof fn lemma_group_borrow_roundtrip(s: Seq<FetchKind>, m: StoreModel)
    requires
        m.wf(),
        group_can_borrow(s, m),
    ensures
        group_can_release(s, group_borrowed(s, m)),
        group_released(s, group_borrowed(s, m)) == m,
    decreases s.len(),
{
    if s.len() > 0 {
        let prefix = s.drop_last();
        let before_last = group_borrowed(prefix, m);
        lemma_group_wf(prefix, m);
        lemma_kind_borrow_roundtrip(s.last(), before_last);
        lemma_group_borrow_roundtrip(prefix, m);
    }
}

/// A failed prefix makes the whole group's borrow fail.
proof fn lemma_group_can_borrow_prefix(s: Seq<FetchKind>, m: StoreModel, j: int)
    requires
        0 <= j <= s.len(),
        !group_can_borrow(s.take(j), m),
    ensures
        !group_can_borrow(s, m),
    decreases s.len() - j,
{
    if j == s.len() {
        assert(s.take(j) =~= s);
    } else {
        assert(s.take(j + 1).drop_last() =~= s.take(j));
        lemma_group_can_borrow_prefix(s, m, j + 1);
    }
}

/// A fixed, ordered, heterogeneous group of fetch requests behaving as one
/// fetch: `access` unions the elements' summaries, `borrow` acquires each
/// element's borrow in declaration order (a single, globally consistent
/// declaration order across all composites is the discipline that prevents
/// circular waits), `release` undoes them in reverse order, and `get`
/// returns views positionally matching the elements. The empty group is a
/// legal fetch: empty summary, no-op borrow and release, empty result.
pub struct CompositeFetch {
    elements: Vec<FetchKind>,
}

impl View for CompositeFetch {
    type V = Seq<FetchKind>;

    closed spec fn view(&self) -> Seq<FetchKind> {
        self.elements@
    }
}

impl CompositeFetch {
    /// The empty group.
    pub fn new() -> (r: CompositeFetch)
        ensures
            r@ == Seq::<FetchKind>::empty(),
    {
        let r = CompositeFetch { elements: Vec::new() };
        proof {
            assert(r@ =~= Seq::<FetchKind>::empty());
        }
        r
    }

    /// Appends one request at the end of the declaration order.
    pub fn push(&mut self, fetch: FetchKind)
        ensures
            final(self)@ == old(self)@.push(fetch),
    {
        self.elements.push(fetch);
    }

    /// How many requests the group holds.
    pub fn len(&self) -> (r: usize)
        ensures
            r == self@.len(),
    {
        self.elements.len()
    }
}

impl FetchResource for CompositeFetch {
    type Item = Vec<FetchItem>;

    open spec fn reads_spec(&self) -> Set<u64> {
        group_reads(self@)
    }

    open spec fn writes_spec(&self) -> Set<u64> {
        group_writes(self@)
    }

    open spec fn can_borrow(&self, m: StoreModel) -> bool {
        group_can_borrow(self@, m)
    }

    open spec fn borrowed(&self, m: StoreModel) -> StoreModel {
        group_borrowed(self@, m)
    }

    open spec fn can_release(&self, m: StoreModel) -> bool {
        group_can_release(self@, m)
    }

    open spec fn released(&self, m: StoreModel) -> StoreModel {
        group_released(self@, m)
    }

    open spec fn get_pre(&self, m: StoreModel, system_id: Option<u64>) -> bool {
        group_get_pre(self@, m, system_id)
    }

    open spec fn item_ok(&self, m: StoreModel, system_id: Option<u64>, item: Vec<FetchItem>) -> bool {
        &&& item@.len() == self@.len()
        &&& forall|j: int| 0 <= j < self@.len() ==> (#[trigger] self@[j]).item_ok(m, system_id, item@[j])
    }

    fn access(&self) -> (r: TypeAccess) {
        let mut access = TypeAccess::default();
        proof {
            assert(self@.take(0) =~= Seq::<FetchKind>::empty());
        }
        let mut i: usize = 0;
        while i < self.elements.len()
            invariant
                i <= self@.len(),
                self@ == self.elements@,
                access@.reads == group_reads(self@.take(i as int)),
                access@.writes == group_writes(self@.take(i as int)),
            decreases self@.len() - i,
        {
            let element_access = self.elements[i].access();
            access.union(&element_access);
            proof {
                assert(self@.take(i + 1).drop_last() =~= self@.take(i as int));
                assert(self@.take(i + 1).last() == self@[i as int]);
            }
            i = i + 1;
        }
        proof {
            assert(self@.take(self@.len() as int) =~= self@);
        }
        access
    }

    fn borrow(&self, resources: &mut Resources) -> (r: bool) {
        proof {
            lemma_store_wf(resources);
            assert(self@.take(0) =~= Seq::<FetchKind>::empty());
        }
        let ghost m0 = resources@;
        let mut i: usize = 0;
        while i < self.elements.len()
            invariant
                i <= self@.len(),
                self@ == self.elements@,
                m0 == old(resources)@,
                m0.wf(),
                resources@ == group_borrowed(self@.take(i as int), m0),
                group_can_borrow(self@.take(i as int), m0),
            decreases self@.len() - i,
        {
            let granted = self.elements[i].borrow(resources);
            proof {
                assert(self@.take(i + 1).drop_last() =~= self@.take(i as int));
                assert(self@.take(i + 1).last() == self@[i as int]);
            }
            if !granted {
                proof {
                    assert(!group_can_borrow(self@.take(i + 1), m0));
                    lemma_group_can_borrow_prefix(self@, m0, i + 1);
                }
                let mut k: usize = i;
                while k > 0
                    invariant
                        k <= self@.len(),
                        self@ == self.elements@,
                        m0 == old(resources)@,
                        m0.wf(),
                        resources@ == group_borrowed(self@.take(k as int), m0),
                        group_can_borrow(self@.take(k as int), m0),
                    decreases k,
                {
                    proof {
                        assert(self@.take(k as int).drop_last() =~= self@.take(k - 1));
                        assert(self@.take(k as int).last() == self@[k - 1]);
                        lemma_group_wf(self@.take(k - 1), m0);
                        lemma_kind_borrow_roundtrip(
                            self@[k - 1],
                            group_borrowed(self@.take(k - 1), m0),
                        );
                    }
                    self.elements[k - 1].release(resources);
                    k = k - 1;
                }
                proof {
                    assert(self@.take(0) =~= Seq::<FetchKind>::empty());
                }
                return false;
            }
            i = i + 1;
        }
        proof {
            assert(self@.take(self@.len() as int) =~= self@);
        }
        true
    }

    fn release(&self, resources: &mut Resources) {
        let ghost m0 = resources@;
        let mut k: usize = self.elements.len();
        proof {
            assert(self@.take(self@.len() as int) =~= self@);
        }
        while k > 0
            invariant
                k <= self@.len(),
                self@ == self.elements@,
                group_can_release(self@.take(k as int), resources@),
                group_released(self@.take(k as int), resources@) == group_released(self@, m0),
                m0 == old(resources)@,
            decreases k,
        {
            proof {
                assert(self@.take(k as int).drop_last() =~= self@.take(k - 1));
                assert(self@.take(k as int).last() == self@[k - 1]);
            }
            self.elements[k - 1].release(resources);
            k = k - 1;
        }
        proof {
            assert(self@.take(0) =~= Seq::<FetchKind>::empty());
        }
    }

    fn get(&self, resources: &Resources, system_id: Option<u64>) -> (r: Vec<FetchItem>) {
        let mut items: Vec<FetchItem> = Vec::new();
        let mut i: usize = 0;
        while i < self.elements.len()
            invariant
                i <= self@.len(),
                self@ == self.elements@,
                group_get_pre(self@, resources@, system_id),
                items@.len() == i,
                forall|j: int|
                    0 <= j < i ==> (#[trigger] self@[j]).item_ok(resources@, system_id, items@[j]),
            decreases self@.len() - i,
        {
            let item = self.elements[i].get(resources, system_id);
            items.push(item);
            i = i + 1;
        }
        items
    }
}

impl ResourceQuery for CompositeFetch {
    type Fetch = CompositeFetch;

    open spec fn init_pre(&self, system_id: Option<u64>) -> bool {
        group_init_pre(self@, system_id)
    }

    open spec fn initialized(&self, m: StoreModel, system_id: Option<u64>) -> StoreModel {
        group_initialized(self@, m, system_id)
    }

    fn initialize(&self, resources: &mut Resources, system_id: Option<u64>) {
        let ghost m0 = resources@;
        proof {
            assert(self@.take(0) =~= Seq::<FetchKind>::empty());
        }
        let mut i: usize = 0;
        while i < self.elements.len()
            invariant
                i <= self@.len(),
                self@ == self.elements@,
                m0 == old(resources)@,
                group_init_pre(self@, system_id),
                resources@ == group_initialized(self@.take(i as int), m0, system_id),
            decreases self@.len() - i,
        {
            self.elements[i].initialize(resources, system_id);
            proof {
                assert(self@.take(i + 1).drop_last() =~= self@.take(i as int));
                assert(self@.take(i + 1).last() == self@[i as int]);
            }
            i = i + 1;
        }
        proof {
            assert(self@.take(self@.len() as int) =~= self@);
        }
    }
}

/// A group of one shared request on one type and one exclusive request on
/// another summarizes as exactly {read: first, write: second}, and its
/// borrow acquires the shared borrow first and the exclusive borrow
/// second, in declaration order.
pub proof fn lemma_pair_shared_then_exclusive(read_id: u64, write_id: u64, m: StoreModel)
    ensures
        group_reads(
            seq![
                FetchKind::Read(FetchResourceRead { type_id: read_id }),
                FetchKind::Write(FetchResourceWrite { type_id: write_id }),
            ],
        ) == Set::empty().insert(read_id),
        group_writes(
            seq![
                FetchKind::Read(FetchResourceRead { type_id: read_id }),
                FetchKind::Write(FetchResourceWrite { type_id: write_id }),
            ],
        ) == Set::empty().insert(write_id),
        group_can_borrow(
            seq![
                FetchKind::Read(FetchResourceRead { type_id: read_id }),
                FetchKind::Write(FetchResourceWrite { type_id: write_id }),
            ],
            m,
        ) == (can_begin_shared(m, read_id)
            && can_begin_exclusive(with_shared_begun(m, read_id), write_id)),
        group_borrowed(
            seq![
                FetchKind::Read(FetchResourceRead { type_id: read_id }),
                FetchKind::Write(FetchResourceWrite { type_id: write_id }),
            ],
            m,
        ) == with_exclusive_begun(with_shared_begun(m, read_id), write_id),
{
    let pair = seq![
        FetchKind::Read(FetchResourceRead { type_id: read_id }),
        FetchKind::Write(FetchResourceWrite { type_id: write_id }),
    ];
    let single = seq![FetchKind::Read(FetchResourceRead { type_id: read_id })];
    assert(pair.drop_last() =~= single);
    assert(single.drop_last() =~= Seq::<FetchKind>::empty());
    assert(pair.last() == FetchKind::Write(FetchResourceWrite { type_id: write_id }));
    assert(single.last() == FetchKind::Read(FetchResourceRead { type_id: read_id }));
    assert(group_reads(Seq::<FetchKind>::empty()) =~= Set::<u64>::empty());
    assert(group_writes(Seq::<FetchKind>::empty()) =~= Set::<u64>::empty());
    assert(group_borrowed(Seq::<FetchKind>::empty(), m) == m);
    assert(group_reads(single) =~= Set::empty().insert(read_id));
    assert(group_writes(single) =~= Set::<u64>::empty());
    assert(group_reads(pair) =~= Set::empty().insert(read_id));
    assert(group_writes(pair) =~= Set::empty().insert(write_id));
    assert(group_borrowed(single, m) == with_shared_begun(m, read_id));
    assert(group_borrowed(pair, m) == with_exclusive_begun(with_shared_begun(m, read_id), write_id));
    assert(group_can_borrow(Seq::<FetchKind>::empty(), m));
    assert(group_can_borrow(single, m) == can_begin_shared(m, read_id));
    assert(group_can_borrow(pair, m) == (can_begin_shared(m, read_id)
        && can_begin_exclusive(with_shared_begun(m, read_id), write_id)));
}

/// The empty group is a legal fetch: its access summary is empty and its
/// borrow and release are observable no-ops on the store.
pub proof fn lemma_empty_composite(m: StoreModel)
    ensures
        group_reads(Seq::<FetchKind>::empty()) == Set::<u64>::empty(),
        group_writes(Seq::<FetchKind>::empty()) == Set::<u64>::empty(),
        group_can_borrow(Seq::<FetchKind>::empty(), m),
        group_borrowed(Seq::<FetchKind>::empty(), m) == m,
        group_can_release(Seq::<FetchKind>::empty(), m),
        group_released(Seq::<FetchKind>::empty(), m) == m,
        group_initialized(Seq::<FetchKind>::empty(), m, None) == m,
{
}

} // verus!
