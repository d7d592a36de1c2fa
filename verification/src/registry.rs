//! Process-wide registry of statement caches.
//!
//! [`StatementCaches`] holds every cache the manager has handed out, one
//! slot per connection. A slot is addressed by the identifier returned at
//! attach time; detaching empties the slot and hands the cache back to its
//! owner, and a slot left empty is skipped by the broadcast operations
//! rather than treated as an error. This gives the registry its defining
//! guarantee: it can broadcast `clear` and `remove` over every live cache
//! without ever extending a cache's lifetime past its connection's.

use vstd::prelude::*;
use vstd::pervasive::VecAdditionalExecFns;
use crate::cache::StatementCache;

verus! {

/// Registry of all statement caches the manager has handed out, one slot
/// per connection, addressed by the identifier `attach` returned.
pub struct StatementCaches<S> {
    slots: Vec<Option<StatementCache<S>>>,
}

impl<S> View for StatementCaches<S> {
    type V = Seq<Option<Map<(Seq<char>, Seq<u32>), S>>>;

    closed spec fn view(&self) -> Seq<Option<Map<(Seq<char>, Seq<u32>), S>>> {
        Seq::new(
            self.slots@.len(),
            |i: int|
                match self.slots@[i] {
                    Some(c) => Some(c@),
                    None => None,
                },
        )
    }
}

impl<S> StatementCaches<S> {
    /// Every cache still held in a slot is well formed.
    pub closed spec fn wf(&self) -> bool {
        forall|i: int|
            0 <= i < self.slots@.len() ==> match #[trigger] self.slots@[i] {
                Some(c) => c.wf(),
                None => true,
            }
    }

    /// Does the identifier address a slot that still holds a cache?
    pub open spec fn live(&self, id: int) -> bool {
        0 <= id < self@.len() && self@[id] is Some
    }

    /// What a lookup of `k` in the cache of slot `id` yields.
    pub open spec fn spec_lookup(&self, id: int, k: (Seq<char>, Seq<u32>)) -> Option<S> {
        if self.live(id) && self@[id].unwrap().contains_key(k) {
            Some(self@[id].unwrap()[k])
        } else {
            None
        }
    }

    /// An empty registry.
    pub fn new() -> (r: StatementCaches<S>)
        ensures
            r.wf(),
            r@ == Seq::<Option<Map<(Seq<char>, Seq<u32>), S>>>::empty(),
    {
        let r = StatementCaches { slots: Vec::new() };
        proof {
            assert(r@ =~= Seq::<Option<Map<(Seq<char>, Seq<u32>), S>>>::empty());
        }
        r
    }

    /// Record a newly created cache and hand back its slot identifier.
    pub fn attach(&mut self, cache: StatementCache<S>) -> (id: usize)
        requires
            old(self).wf(),
            cache.wf(),
        ensures
            final(self).wf(),
            id == old(self)@.len(),
            final(self)@ == old(self)@.push(Some(cache@)),
    {
        let id = self.slots.len();
        self.slots.push(Some(cache));
        proof {
            assert(self@ =~= old(self)@.push(Some(cache@)));
        }
        id
    }

    /// Empty the slot and hand the cache back to its owner: the registry no
    /// longer reaches it. Detaching an already-empty or unknown slot is a
    /// no-op that reports nothing found.
    pub fn detach(&mut self, id: usize) -> (r: Option<StatementCache<S>>)
        requires
            old(self).wf(),
        ensures
            final(self).wf(),
            final(self)@.len() == old(self)@.len(),
            old(self).live(id as int) ==> (r matches Some(c) && c.wf() && Some(c@) == old(
                self,
            )@[id as int] && final(self)@ == old(self)@.update(id as int, None)),
            !old(self).live(id as int) ==> (r is None && final(self)@ == old(self)@),
    {
        if id < self.slots.len() {
            let mut slot: Option<StatementCache<S>> = None;
            self.slots.set_and_swap(id, &mut slot);
            proof {
                assert(self@ =~= old(self)@.update(id as int, None));
                if !old(self).live(id as int) {
                    assert(self@ =~= old(self)@);
                }
            }
            slot
        } else {
            None
        }
    }

    /// Clear the cache in every slot that still holds one; empty slots are
    /// skipped. Afterwards every reachable cache maps nothing.
    pub fn clear(&mut self)
        requires
            old(self).wf(),
        ensures
            final(self).wf(),
            final(self)@.len() == old(self)@.len(),
            forall|i: int| #![auto]
                0 <= i < old(self)@.len() ==> ((old(self)@[i] is Some ==> final(self)@[i] == Some(
                    Map::<(Seq<char>, Seq<u32>), S>::empty(),
                )) && (old(self)@[i] is None ==> final(self)@[i] is None)),
    {
        let n = self.slots.len();
        let mut i: usize = 0;
        while i < n
            invariant
                self.wf(),
                n == self.slots@.len(),
                0 <= i <= n,
                self@.len() == old(self)@.len(),
                forall|j: int| #![auto] i <= j < n ==> self.slots@[j] == old(self).slots@[j],
                forall|j: int| #![auto]
                    0 <= j < i ==> ((old(self)@[j] is Some ==> self@[j] == Some(
                        Map::<(Seq<char>, Seq<u32>), S>::empty(),
                    )) && (old(self)@[j] is None ==> self@[j] is None)),
            decreases n - i,
        {
            let ghost pre = *self;
            let mut slot: Option<StatementCache<S>> = None;
            self.slots.set_and_swap(i, &mut slot);
            match slot {
                Some(mut c) => {
                    c.clear();
                    self.slots.set(i, Some(c));
                },
                None => {},
            }
            proof {
                assert forall|j: int| 0 <= j <= i implies ((old(self)@[j] is Some ==> self@[j]
                    == Some(Map::<(Seq<char>, Seq<u32>), S>::empty())) && (old(self)@[j] is None
                    ==> self@[j] is None)) by {
                    if j < i {
                        assert(self.slots@[j] == pre.slots@[j]);
                        assert(self@[j] == pre@[j]);
                    }
                }
            }
            i = i + 1;
        }
    }

    /// Remove the statement stored under (`query`, `types`) from the cache
    /// in every slot that still holds one; empty slots are skipped.
    pub fn remove(&mut self, query: &str, types: &[u32])
        requires
            old(self).wf(),
        ensures
            final(self).wf(),
            final(self)@.len() == old(self)@.len(),
            forall|i: int| #![auto]
                0 <= i < old(self)@.len() ==> ((old(self)@[i] matches Some(m)
                    ==> final(self)@[i] == Some(m.remove((query@, types@))))
                    && (old(self)@[i] is None ==> final(self)@[i] is None)),
    {
        let n = self.slots.len();
        let mut i: usize = 0;
        while i < n
            invariant
                self.wf(),
                n == self.slots@.len(),
                0 <= i <= n,
                self@.len() == old(self)@.len(),
                forall|j: int| #![auto] i <= j < n ==> self.slots@[j] == old(self).slots@[j],
                forall|j: int| #![auto]
                    0 <= j < i ==> ((old(self)@[j] matches Some(m) ==> self@[j] == Some(
                        m.remove((query@, types@)),
                    )) && (old(self)@[j] is None ==> self@[j] is None)),
            decreases n - i,
        {
            let mut slot: Option<StatementCache<S>> = None;
            self.slots.set_and_swap(i, &mut slot);
            match slot {
                Some(mut c) => {
                    let ghost m = c@;
                    let _ = c.remove(query, types);
                    proof {
                        if !m.contains_key((query@, types@)) {
                            assert(c@ =~= m.remove((query@, types@)));
                        }
                    }
                    self.slots.set(i, Some(c));
                },
                None => {},
            }
            i = i + 1;
        }
    }

    /// Look the key up in the cache of slot `id`; an empty or unknown slot
    /// yields nothing.
    pub fn cache_get<'a>(&'a self, id: usize, query: &str, types: &[u32]) -> (r: Option<&'a S>)
        requires
            self.wf(),
        ensures
            match r {
                Some(s) => self.spec_lookup(id as int, (query@, types@)) == Some(*s),
                None => self.spec_lookup(id as int, (query@, types@)) is None,
            },
    {
        if id < self.slots.len() {
            match &self.slots[id] {
                Some(c) => c.get(query, types),
                None => None,
            }
        } else {
            None
        }
    }

    /// Store a freshly prepared handle in the cache of slot `id`. On an
    /// empty or unknown slot the handle is dropped and nothing changes.
    pub fn cache_insert(&mut self, id: usize, query: &str, types: &[u32], stmt: S)
        requires
            old(self).wf(),
        ensures
            final(self).wf(),
            final(self)@.len() == old(self)@.len(),
            old(self).live(id as int) ==> final(self)@ == old(self)@.update(
                id as int,
                Some(old(self)@[id as int].unwrap().insert((query@, types@), stmt)),
            ),
            !old(self).live(id as int) ==> final(self)@ == old(self)@,
    {
        if id < self.slots.len() {
            let mut slot: Option<StatementCache<S>> = None;
            self.slots.set_and_swap(id, &mut slot);
            match slot {
                Some(mut c) => {
                    c.insert(query, types, stmt);
                    self.slots.set(id, Some(c));
                    proof {
                        assert(self@ =~= old(self)@.update(
                            id as int,
                            Some(old(self)@[id as int].unwrap().insert((query@, types@), stmt)),
                        ));
                    }
                },
                None => {
                    proof {
                        assert(self@ =~= old(self)@);
                    }
                },
            }
        }
    }

    /// Remove the statement under the key from the cache of slot `id` and
    /// hand back its handle; an empty or unknown slot yields nothing.
    pub fn cache_remove(&mut self, id: usize, query: &str, types: &[u32]) -> (r: Option<S>)
        requires
            old(self).wf(),
        ensures
            final(self).wf(),
            final(self)@.len() == old(self)@.len(),
            r == old(self).spec_lookup(id as int, (query@, types@)),
            old(self).live(id as int) ==> final(self)@ == old(self)@.update(
                id as int,
                Some(old(self)@[id as int].unwrap().remove((query@, types@))),
            ),
            !old(self).live(id as int) ==> final(self)@ == old(self)@,
    {
        if id < self.slots.len() {
            let mut slot: Option<StatementCache<S>> = None;
            self.slots.set_and_swap(id, &mut slot);
            match slot {
                Some(mut c) => {
                    let ghost m = c@;
                    let r = c.remove(query, types);
                    proof {
                        if !m.contains_key((query@, types@)) {
                            assert(c@ =~= m.remove((query@, types@)));
                        }
                    }
                    self.slots.set(id, Some(c));
                    proof {
                        assert(self@ =~= old(self)@.update(
                            id as int,
                            Some(old(self)@[id as int].unwrap().remove((query@, types@))),
                        ));
                    }
                    r
                },
                None => {
                    proof {
                        assert(self@ =~= old(self)@);
                    }
                    None
                },
            }
        } else {
            None
        }
    }

    /// Clear the cache of slot `id` alone; an empty or unknown slot is left
    /// as it is.
    pub fn cache_clear(&mut self, id: usize)
        requires
            old(self).wf(),
        ensures
            final(self).wf(),
            final(self)@.len() == old(self)@.len(),
            old(self).live(id as int) ==> final(self)@ == old(self)@.update(
                id as int,
                Some(Map::<(Seq<char>, Seq<u32>), S>::empty()),
            ),
            !old(self).live(id as int) ==> final(self)@ == old(self)@,
    {
        if id < self.slots.len() {
            let mut slot: Option<StatementCache<S>> = None;
            self.slots.set_and_swap(id, &mut slot);
            match slot {
                Some(mut c) => {
                    c.clear();
                    self.slots.set(id, Some(c));
                    proof {
                        assert(self@ =~= old(self)@.update(
                            id as int,
                            Some(Map::<(Seq<char>, Seq<u32>), S>::empty()),
                        ));
                    }
                },
                None => {
                    proof {
                        assert(self@ =~= old(self)@);
                    }
                },
            }
        }
    }

    /// Entry count of the cache in slot `id`; an empty or unknown slot
    /// counts zero.
    pub fn cache_size(&self, id: usize) -> (r: usize)
        requires
            self.wf(),
        ensures
            self.live(id as int) ==> r == self@[id as int].unwrap().len(),
            !self.live(id as int) ==> r == 0,
    {
        if id < self.slots.len() {
            match &self.slots[id] {
                Some(c) => c.size(),
                None => 0,
            }
        } else {
            0
        }
    }
}

/// Law: after a registry-wide `clear`, every cache still reachable through
/// the registry maps nothing, and slots whose cache was already gone are
/// skipped untouched rather than treated as an error.
pub proof fn lemma_clear_empties_live_caches<S>(
    before: Seq<Option<Map<(Seq<char>, Seq<u32>), S>>>,
    after: Seq<Option<Map<(Seq<char>, Seq<u32>), S>>>,
)
    requires
        after.len() == before.len(),
        forall|i: int| #![auto]
            0 <= i < before.len() ==> ((before[i] is Some ==> after[i] == Some(
                Map::<(Seq<char>, Seq<u32>), S>::empty(),
            )) && (before[i] is None ==> after[i] is None)),
    ensures
        forall|i: int|
            0 <= i < after.len() ==> match #[trigger] after[i] {
                Some(m) => m.len() == 0,
                None => true,
            },
        forall|i: int| #![auto] 0 <= i < after.len() ==> (before[i] is None ==> after[i] is None),
{
    assert(Map::<(Seq<char>, Seq<u32>), S>::empty().dom() =~= Set::<(Seq<char>, Seq<u32>)>::empty());
}

/// Law: `detach` followed by a registry-wide `clear` cannot affect the
/// detached connection's cache: its slot is already empty when the clear
/// runs, and the cache itself went back to its owner as a plain value the
/// registry no longer reaches.
pub proof fn lemma_detach_then_clear<S>(
    before: Seq<Option<Map<(Seq<char>, Seq<u32>), S>>>,
    after_detach: Seq<Option<Map<(Seq<char>, Seq<u32>), S>>>,
    after_clear: Seq<Option<Map<(Seq<char>, Seq<u32>), S>>>,
    id: int,
)
    requires
        0 <= id < before.len(),
        after_detach == before.update(id, None::<Map<(Seq<char>, Seq<u32>), S>>),
        after_clear.len() == after_detach.len(),
        forall|i: int| #![auto]
            0 <= i < after_detach.len() ==> ((after_detach[i] is Some ==> after_clear[i] == Some(
                Map::<(Seq<char>, Seq<u32>), S>::empty(),
            )) && (after_detach[i] is None ==> after_clear[i] is None)),
    ensures
        after_detach[id] is None,
        after_clear[id] is None,
{
}

} // verus!
