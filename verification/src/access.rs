//! Access descriptors: which resource types a fetch reads and writes.

use vstd::prelude::*;

verus! {

/// Mathematical summary of an access declaration: the set of type
/// identities read and the set written.
#[verifier::ext_equal]
pub struct AccessModel {
    pub reads: Set<u64>,
    pub writes: Set<u64>,
}

/// The empty access summary.
pub open spec fn empty_access() -> AccessModel {
    AccessModel { reads: Set::empty(), writes: Set::empty() }
}

/// A pure value summarizing which resource types a request will read
/// and/or write. Union-composable; consumed by the external scheduler
/// to build non-conflicting execution groups.
pub struct TypeAccess {
    immutable: Vec<u64>,
    mutable: Vec<u64>,
}

impl View for TypeAccess {
    type V = AccessModel;

    closed spec fn view(&self) -> AccessModel {
        AccessModel { reads: self.immutable@.to_set(), writes: self.mutable@.to_set() }
    }
}

/// Searches a vector for a value; support for the deduplicating inserts.
fn vec_contains(v: &Vec<u64>, x: u64) -> (r: bool)
    ensures
        r == v@.contains(x),
{
    let mut i: usize = 0;
    while i < v.len()
        invariant
            i <= v@.len(),
            forall|j: int| 0 <= j < i ==> v@[j] != x,
        decreases v@.len() - i,
    {
        if v[i] == x {
            return true;
        }
        i = i + 1;
    }
    false
}

/// Inserts a value into a vector unless already present; the seq viewed
/// as a set gains exactly that value.
fn vec_insert_distinct(v: &mut Vec<u64>, x: u64)
    ensures
        final(v)@.to_set() == old(v)@.to_set().insert(x),
{
    let present = vec_contains(v, x);
    if present {
        proof {
            assert(v@.to_set() =~= v@.to_set().insert(x));
        }
    } else {
        v.push(x);
        proof {
            assert(v@ == old(v)@.push(x));
            assert forall|y: u64| v@.to_set().contains(y) <==> old(v)@.to_set().insert(x).contains(y) by {
                if v@.contains(y) {
                    let j = choose|j: int| 0 <= j < v@.len() && v@[j] == y;
                    if j < old(v)@.len() {
                        assert(old(v)@[j] == y);
                        assert(old(v)@.contains(y));
                    }
                }
                if old(v)@.contains(y) {
                    let j = choose|j: int| 0 <= j < old(v)@.len() && old(v)@[j] == y;
                    assert(v@[j] == y);
                    assert(v@.contains(y));
                }
                if y == x {
                    assert(v@[old(v)@.len() as int] == x);
                    assert(v@.contains(x));
                }
            }
            assert(v@.to_set() =~= old(v)@.to_set().insert(x));
        }
    }
}

impl TypeAccess {
    /// The descriptor that reads nothing and writes nothing.
    pub fn empty() -> (r: TypeAccess)
        ensures
            r@ == empty_access(),
    {
        let r = TypeAccess { immutable: Vec::new(), mutable: Vec::new() };
        proof {
            assert(r@.reads =~= Set::<u64>::empty());
            assert(r@.writes =~= Set::<u64>::empty());
            assert(r@ =~= empty_access());
        }
        r
    }

    /// Declares a shared read of the given resource type.
    pub fn insert_read(&mut self, type_id: u64)
        ensures
            final(self)@.reads == old(self)@.reads.insert(type_id),
            final(self)@.writes == old(self)@.writes,
    {
        vec_insert_distinct(&mut self.immutable, type_id);
    }

    /// Declares an exclusive write of the given resource type.
    pub fn insert_write(&mut self, type_id: u64)
        ensures
            final(self)@.reads == old(self)@.reads,
            final(self)@.writes == old(self)@.writes.insert(type_id),
    {
        vec_insert_distinct(&mut self.mutable, type_id);
    }

    /// Merges another descriptor into this one. Each of the read and
    /// write sets becomes the plain set union of the two operands; reads
    /// never leak into writes nor writes into reads.
    pub fn union(&mut self, other: &TypeAccess)
        ensures
            final(self)@.reads == old(self)@.reads.union(other@.reads),
            final(self)@.writes == old(self)@.writes.union(other@.writes),
    {
        let mut i: usize = 0;
        while i < other.immutable.len()
            invariant
                i <= other.immutable@.len(),
                self@.reads == old(self)@.reads.union(other.immutable@.take(i as int).to_set()),
                self@.writes == old(self)@.writes,
            decreases other.immutable@.len() - i,
        {
            self.insert_read(other.immutable[i]);
            proof {
                let t = other.immutable@;
                assert(t.take(i + 1).drop_last() =~= t.take(i as int));
                assert(t.take(i + 1).last() == t[i as int]);
                assert forall|y: u64| t.take(i + 1).to_set().contains(y)
                    <==> t.take(i as int).to_set().insert(t[i as int]).contains(y) by {
                    if t.take(i + 1).contains(y) {
                        let j = choose|j: int| 0 <= j < i + 1 && #[trigger] t.take(i + 1)[j] == y;
                        if j < i {
                            assert(t.take(i as int)[j] == y);
                            assert(t.take(i as int).contains(y));
                        }
                    }
                    if t.take(i as int).contains(y) {
                        let j = choose|j: int| 0 <= j < i && #[trigger] t.take(i as int)[j] == y;
                        assert(t.take(i + 1)[j] == y);
                        assert(t.take(i + 1).contains(y));
                    }
                    if y == t[i as int] {
                        assert(t.take(i + 1)[i as int] == y);
                        assert(t.take(i + 1).contains(y));
                    }
                }
                assert(t.take(i + 1).to_set() =~= t.take(i as int).to_set().insert(t[i as int]));
                assert(self@.reads =~= old(self)@.reads.union(t.take(i + 1).to_set()));
            }
            i = i + 1;
        }
        proof {
            assert(other.immutable@.take(other.immutable@.len() as int) =~= other.immutable@);
        }
        let mut k: usize = 0;
        while k < other.mutable.len()
            invariant
                k <= other.mutable@.len(),
                self@.writes == old(self)@.writes.union(other.mutable@.take(k as int).to_set()),
                self@.reads == old(self)@.reads.union(other@.reads),
            decreases other.mutable@.len() - k,
        {
            self.insert_write(other.mutable[k]);
            proof {
                let t = other.mutable@;
                assert forall|y: u64| t.take(k + 1).to_set().contains(y)
                    <==> t.take(k as int).to_set().insert(t[k as int]).contains(y) by {
                    if t.take(k + 1).contains(y) {
                        let j = choose|j: int| 0 <= j < k + 1 && #[trigger] t.take(k + 1)[j] == y;
                        if j < k {
                            assert(t.take(k as int)[j] == y);
                            assert(t.take(k as int).contains(y));
                        }
                    }
                    if t.take(k as int).contains(y) {
                        let j = choose|j: int| 0 <= j < k && #[trigger] t.take(k as int)[j] == y;
                        assert(t.take(k + 1)[j] == y);
                        assert(t.take(k + 1).contains(y));
                    }
                    if y == t[k as int] {
                        assert(t.take(k + 1)[k as int] == y);
                        assert(t.take(k + 1).contains(y));
                    }
                }
                assert(t.take(k + 1).to_set() =~= t.take(k as int).to_set().insert(t[k as int]));
                assert(self@.writes =~= old(self)@.writes.union(t.take(k + 1).to_set()));
            }
            k = k + 1;
        }
        proof {
            assert(other.mutable@.take(other.mutable@.len() as int) =~= other.mutable@);
        }
    }

    /// Whether the descriptor declares a shared read of the type.
    pub fn contains_read(&self, type_id: u64) -> (r: bool)
        ensures
            r == self@.reads.contains(type_id),
    {
        vec_contains(&self.immutable, type_id)
    }

    /// Whether the descriptor declares an exclusive write of the type.
    pub fn contains_write(&self, type_id: u64) -> (r: bool)
        ensures
            r == self@.writes.contains(type_id),
    {
        vec_contains(&self.mutable, type_id)
    }

    /// Whether the descriptor declares no access at all.
    pub fn is_empty(&self) -> (r: bool)
        ensures
            r == (self@.reads == Set::<u64>::empty() && self@.writes == Set::<u64>::empty()),
    {
        let r = self.immutable.len() == 0 && self.mutable.len() == 0;
        proof {
            if self.immutable@.len() == 0 {
                assert(self@.reads =~= Set::<u64>::empty());
            } else {
                assert(self.immutable@.contains(self.immutable@[0]));
                assert(self@.reads.contains(self.immutable@[0]));
            }
            if self.mutable@.len() == 0 {
                assert(self@.writes =~= Set::<u64>::empty());
            } else {
                assert(self.mutable@.contains(self.mutable@[0]));
                assert(self@.writes.contains(self.mutable@[0]));
            }
        }
        r
    }
}

impl Default for TypeAccess {
    /// Same as `TypeAccess::empty`.
    fn default() -> (r: TypeAccess)
        ensures
            r@ == empty_access(),
    {
        TypeAccess::empty()
    }
}

} // verus!
