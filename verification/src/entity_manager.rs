//! Entity ids: handed out from a counter that starts at 1, and handed out
//! again, most recently released first, once released.
use vstd::prelude::*;

verus! {

/// The allocator of entity ids.
#[derive(Debug)]
pub struct EntityManager {
    next_id: i32,
    recycled: Vec<i32>,
}

impl EntityManager {
    /// The next id the counter gives.
    pub closed spec fn spec_next(&self) -> i32 {
        self.next_id
    }

    /// The released ids, the one to be handed out first last.
    pub closed spec fn spec_recycled(&self) -> Seq<i32> {
        self.recycled@
    }

    /// `after` is `before` once it handed out `id`: the most recently
    /// released id if there is one, else the counter, which moves on.
    pub open spec fn issues(before: EntityManager, after: EntityManager, id: i32) -> bool {
        if before.spec_recycled().len() > 0 {
            &&& id == before.spec_recycled().last()
            &&& after.spec_recycled() == before.spec_recycled().drop_last()
            &&& after.spec_next() == before.spec_next()
        } else {
            &&& id == before.spec_next()
            &&& after.spec_next() == before.spec_next() + 1
            &&& after.spec_recycled() == before.spec_recycled()
        }
    }

    /// `after` is `before` once `id` was released.
    pub open spec fn releases(before: EntityManager, after: EntityManager, id: i32) -> bool {
        &&& after.spec_recycled() == before.spec_recycled().push(id)
        &&& after.spec_next() == before.spec_next()
    }

    /// Every released id was handed out by the counter (it lies in
    /// `1..next`), and none is released twice.
    pub open spec fn is_consistent(&self) -> bool {
        &&& 1 <= self.spec_next()
        &&& forall|i: int| 0 <= i < self.spec_recycled().len() ==> 1 <= #[trigger] self.spec_recycled()[i] < self.spec_next()
        &&& forall|i: int, j: int|
            0 <= i < j < self.spec_recycled().len() ==> self.spec_recycled()[i] != self.spec_recycled()[j]
    }

    /// A fresh allocator: the counter at 1, nothing released.
    pub fn new() -> (m: Self)
        ensures
            m.spec_next() == 1,
            m.spec_recycled().len() == 0,
    {
        Self::default()
    }

    /// Whether an id can be handed out: one was released, or the counter
    /// has not reached `i32::MAX`.
    pub fn can_issue(&self) -> (b: bool)
        ensures
            b == (self.spec_recycled().len() > 0 || self.spec_next() < i32::MAX),
    {
        self.recycled.len() > 0 || self.next_id < i32::MAX
    }

    /// Hands out an id: the most recently released one, else the counter's,
    /// which moves on. The counter stops at `i32::MAX`, where the call is
    /// refused unless an id was released.
    pub fn next_id(&mut self) -> (id: i32)
        requires
            old(self).spec_recycled().len() > 0 || old(self).spec_next() < i32::MAX,
        ensures
            EntityManager::issues(*old(self), *final(self), id),
    {
        match self.recycled.pop() {
            Some(id) => id,
            None => {
                let current = self.next_id;
                self.next_id = current + 1;
                current
            },
        }
    }

    /// The next id the counter gives.
    pub fn current_id(&self) -> (id: i32)
        ensures
            id == self.spec_next(),
    {
        self.next_id
    }

    /// Releases `id` (at least 1) to be handed out again.
    pub fn release_id(&mut self, id: i32)
        requires
            id >= 1,
        ensures
            EntityManager::releases(*old(self), *final(self), id),
    {
        self.recycled.push(id);
    }
}

impl Default for EntityManager {
    fn default() -> (m: Self)
        ensures
            m.spec_next() == 1,
            m.spec_recycled().len() == 0,
    {
        EntityManager { next_id: 1, recycled: Vec::new() }
    }
}

/// Releasing an id and asking for one gives that id back and leaves the
/// allocator as it was.
pub proof fn law_release_then_next(a: EntityManager, b: EntityManager, c: EntityManager, released: i32, issued: i32)
    requires
        EntityManager::releases(a, b, released),
        EntityManager::issues(b, c, issued),
    ensures
        issued == released,
        c.spec_next() == a.spec_next(),
        c.spec_recycled() == a.spec_recycled(),
{
    assert(b.spec_recycled().drop_last() =~= a.spec_recycled());
}

/// Two ids handed out one after the other by a consistent allocator differ.
pub proof fn law_successive_ids_differ(a: EntityManager, b: EntityManager, c: EntityManager, first: i32, second: i32)
    requires
        a.is_consistent(),
        EntityManager::issues(a, b, first),
        EntityManager::issues(b, c, second),
    ensures
        first != second,
        1 <= first,
        1 <= second,
{
    let r = a.spec_recycled();
    if r.len() > 1 {
        assert(b.spec_recycled().last() == r[r.len() - 2]);
    }
}

/// Handing out an id, and releasing one that is handed out and not yet
/// released, keep an allocator consistent.
pub proof fn law_consistency_kept(a: EntityManager, b: EntityManager, c: EntityManager, issued: i32, released: i32)
    requires
        a.is_consistent(),
        a.spec_next() < i32::MAX || a.spec_recycled().len() > 0,
        EntityManager::issues(a, b, issued),
    ensures
        b.is_consistent(),
        EntityManager::releases(b, c, released) && 1 <= released < b.spec_next()
            && !b.spec_recycled().contains(released) ==> c.is_consistent(),
{
    let r = a.spec_recycled();
    if r.len() > 0 {
        assert(forall|i: int| 0 <= i < b.spec_recycled().len() ==> b.spec_recycled()[i] == r[i]);
    }
    if EntityManager::releases(b, c, released) && 1 <= released < b.spec_next()
        && !b.spec_recycled().contains(released) {
        let rb = b.spec_recycled();
        assert forall|i: int, j: int| 0 <= i < j < c.spec_recycled().len() implies c.spec_recycled()[i]
            != c.spec_recycled()[j] by {
            if j == rb.len() {
                assert(c.spec_recycled()[i] == rb[i]);
            }
        }
    }
}

impl EntityManager {
    /// `outstanding` are the ids handed out and not released since: the
    /// allocator is consistent, and each of them came from the counter and
    /// is not among the released ones.
    pub open spec fn tracks(&self, outstanding: Set<i32>) -> bool {
        &&& self.is_consistent()
        &&& forall|x: i32|
            #[trigger] outstanding.contains(x) ==> 1 <= x < self.spec_next() && !self.spec_recycled().contains(x)
    }
}

/// A fresh allocator has handed out nothing.
pub proof fn law_fresh_tracks_nothing(m: EntityManager)
    requires
        m.spec_next() == 1,
        m.spec_recycled().len() == 0,
    ensures
        m.tracks(Set::<i32>::empty()),
{
}

/// An id that is handed out is at least 1 and is none of the ids still
/// outstanding; it is outstanding afterwards.
pub proof fn law_next_id_not_outstanding(a: EntityManager, b: EntityManager, id: i32, outstanding: Set<i32>)
    requires
        a.tracks(outstanding),
        a.spec_next() < i32::MAX || a.spec_recycled().len() > 0,
        EntityManager::issues(a, b, id),
    ensures
        1 <= id,
        !outstanding.contains(id),
        b.tracks(outstanding.insert(id)),
{
    law_consistency_kept(a, b, b, id, 0);
    let r = a.spec_recycled();
    if r.len() > 0 {
        assert(r.contains(id)) by {
            assert(r[r.len() - 1] == id);
        }
        assert forall|x: i32| #[trigger] outstanding.insert(id).contains(x) implies 1 <= x < b.spec_next()
            && !b.spec_recycled().contains(x) by {
            if x == id {
                if b.spec_recycled().contains(x) {
                    let j = choose|j: int| 0 <= j < b.spec_recycled().len() && b.spec_recycled()[j] == x;
                    assert(r[j] == r[r.len() - 1]);
                }
            } else {
                assert(outstanding.contains(x));
                if b.spec_recycled().contains(x) {
                    let j = choose|j: int| 0 <= j < b.spec_recycled().len() && b.spec_recycled()[j] == x;
                    assert(r[j] == x);
                    assert(r.contains(x));
                }
            }
        }
    } else {
        assert forall|x: i32| #[trigger] outstanding.insert(id).contains(x) implies 1 <= x < b.spec_next()
            && !b.spec_recycled().contains(x) by {
            if x != id {
                assert(outstanding.contains(x));
            }
        }
    }
}

/// Releasing an outstanding id keeps the allocator tracking the ids that
/// remain outstanding.
pub proof fn law_release_outstanding(a: EntityManager, b: EntityManager, id: i32, outstanding: Set<i32>)
    requires
        a.tracks(outstanding),
        outstanding.contains(id),
        EntityManager::releases(a, b, id),
    ensures
        b.tracks(outstanding.remove(id)),
{
    let r = a.spec_recycled();
    let rb = b.spec_recycled();
    assert forall|i: int, j: int| 0 <= i < j < rb.len() implies rb[i] != rb[j] by {
        if j == r.len() {
            assert(rb[i] == r[i]);
            assert(r.contains(rb[i]));
        }
    }
    assert forall|i: int| 0 <= i < rb.len() implies 1 <= #[trigger] rb[i] < b.spec_next() by {
        if i < r.len() {
            assert(rb[i] == r[i]);
        }
    }
    assert forall|x: i32| #[trigger] outstanding.remove(id).contains(x) implies 1 <= x < b.spec_next()
        && !b.spec_recycled().contains(x) by {
        assert(outstanding.contains(x));
        if rb.contains(x) {
            let j = choose|j: int| 0 <= j < rb.len() && rb[j] == x;
            if j < r.len() {
                assert(r[j] == x);
                assert(r.contains(x));
            }
        }
    }
}

} // verus!
