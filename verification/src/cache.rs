//! Per-connection statement cache.
//!
//! A [`StatementCache`] maps a key — the query text together with the ordered
//! parameter-type identifiers it was prepared with — to a prepared-statement
//! handle. The handle type is a type parameter: the cache never inspects it,
//! it only stores and hands it back. The cache keeps an entry count that is
//! always equal to the number of distinct keys currently mapped.

use vstd::prelude::*;
use vstd::pervasive::VecAdditionalExecFns;
use vstd::string::StrSliceExecFns;

verus! {

/// A cache key: query text plus the ordered parameter-type identifiers
/// (one per placeholder) the statement was prepared with. Equality is
/// structural over both fields.
pub struct StatementCacheKey {
    /// The query text.
    pub query: String,
    /// The parameter-type identifiers, in placeholder order.
    pub types: Vec<u32>,
}

impl View for StatementCacheKey {
    type V = (Seq<char>, Seq<u32>);

    open spec fn view(&self) -> (Seq<char>, Seq<u32>) {
        (self.query@, self.types@)
    }
}

/// The abstract key of one stored entry.
spec fn entry_key<S>(e: (StatementCacheKey, S)) -> (Seq<char>, Seq<u32>) {
    e.0@
}

/// No two stored entries share a key.
spec fn distinct_keys<S>(s: Seq<(StatementCacheKey, S)>) -> bool {
    forall|i: int, j: int| 0 <= i < j < s.len() ==> entry_key(s[i]) != entry_key(s[j])
}

/// The mapping that a sequence of entries denotes.
spec fn entries_map<S>(s: Seq<(StatementCacheKey, S)>) -> Map<(Seq<char>, Seq<u32>), S>
    decreases s.len(),
{
    if s.len() == 0 {
        Map::empty()
    } else {
        entries_map(s.drop_last()).insert(entry_key(s.last()), s.last().1)
    }
}

/// A key is in the denoted map exactly when some entry carries it.
proof fn lemma_entries_map_domain<S>(s: Seq<(StatementCacheKey, S)>, k: (Seq<char>, Seq<u32>))
    ensures
        entries_map(s).contains_key(k) <==> exists|i: int|
            0 <= i < s.len() && entry_key(s[i]) == k,
    decreases s.len(),
{
    if s.len() == 0 {
    } else {
        lemma_entries_map_domain(s.drop_last(), k);
        if entries_map(s).contains_key(k) {
            if entry_key(s.last()) == k {
                assert(entry_key(s[s.len() - 1]) == k);
            } else {
                let i = choose|i: int| 0 <= i < s.drop_last().len() && entry_key(
                    s.drop_last()[i],
                ) == k;
                assert(entry_key(s[i]) == k);
            }
        }
        if exists|i: int| 0 <= i < s.len() && entry_key(s[i]) == k {
            let i = choose|i: int| 0 <= i < s.len() && entry_key(s[i]) == k;
            if i < s.len() - 1 {
                assert(entry_key(s.drop_last()[i]) == k);
            }
        }
    }
}

/// With distinct keys, the denoted map sends each entry's key to its handle.
proof fn lemma_entries_map_index<S>(s: Seq<(StatementCacheKey, S)>, i: int)
    requires
        distinct_keys(s),
        0 <= i < s.len(),
    ensures
        entries_map(s).contains_key(entry_key(s[i])),
        entries_map(s)[entry_key(s[i])] == s[i].1,
    decreases s.len(),
{
    if i == s.len() - 1 {
    } else {
        assert(distinct_keys(s.drop_last())) by {
            assert forall|x: int, y: int|
                0 <= x < y < s.drop_last().len() implies entry_key(s.drop_last()[x]) != entry_key(
                s.drop_last()[y],
            ) by {
                assert(entry_key(s[x]) != entry_key(s[y]));
            }
        }
        assert(s.drop_last()[i] == s[i]);
        lemma_entries_map_index(s.drop_last(), i);
        assert(entry_key(s[i]) != entry_key(s[s.len() - 1]));
    }
}

/// With distinct keys, the denoted map has exactly one entry per stored one.
proof fn lemma_entries_map_len<S>(s: Seq<(StatementCacheKey, S)>)
    requires
        distinct_keys(s),
    ensures
        entries_map(s).dom().finite(),
        entries_map(s).len() == s.len(),
    decreases s.len(),
{
    if s.len() == 0 {
        assert(entries_map(s).dom() =~= Set::<(Seq<char>, Seq<u32>)>::empty());
    } else {
        assert(distinct_keys(s.drop_last())) by {
            assert forall|x: int, y: int|
                0 <= x < y < s.drop_last().len() implies entry_key(s.drop_last()[x]) != entry_key(
                s.drop_last()[y],
            ) by {
                assert(entry_key(s[x]) != entry_key(s[y]));
            }
        }
        lemma_entries_map_len(s.drop_last());
        lemma_entries_map_domain(s.drop_last(), entry_key(s.last()));
        assert forall|i: int| 0 <= i < s.drop_last().len() implies entry_key(s.drop_last()[i])
            != entry_key(s.last()) by {
            assert(entry_key(s[i]) != entry_key(s[s.len() - 1]));
        }
        assert(!entries_map(s.drop_last()).contains_key(entry_key(s.last())));
    }
}

/// Compare two strings by their character sequences.
fn str_eq(a: &str, b: &str) -> (r: bool)
    ensures
        r <==> a@ == b@,
{
    let a_len = a.unicode_len();
    let b_len = b.unicode_len();
    if a_len != b_len {
        return false;
    }
    let mut i: usize = 0;
    while i < a_len
        invariant
            a_len == a@.len(),
            b_len == b@.len(),
            a_len == b_len,
            0 <= i <= a_len,
            forall|j: int| 0 <= j < i ==> a@[j] == b@[j],
        decreases a_len - i,
    {
        if a.get_char(i) != b.get_char(i) {
            return false;
        }
        i = i + 1;
    }
    proof {
        assert(a@ =~= b@);
    }
    true
}

/// Compare stored type identifiers with a borrowed list of them.
fn types_eq(a: &Vec<u32>, b: &[u32]) -> (r: bool)
    ensures
        r <==> a@ == b@,
{
    if a.len() != b.len() {
        return false;
    }
    let mut i: usize = 0;
    while i < a.len()
        invariant
            a@.len() == b@.len(),
            0 <= i <= a@.len(),
            forall|j: int| 0 <= j < i ==> a@[j] == b@[j],
        decreases a@.len() - i,
    {
        if a[i] != b[i] {
            return false;
        }
        i = i + 1;
    }
    proof {
        assert(a@ =~= b@);
    }
    true
}

/// Does a stored key match the borrowed query text and types? The borrowed
/// forms avoid building an owned key on the lookup path.
fn key_matches(key: &StatementCacheKey, query: &str, types: &[u32]) -> (r: bool)
    ensures
        r <==> key@ == (query@, types@),
{
    str_eq(key.query.as_str(), query) && types_eq(&key.types, types)
}

/// Copy a borrowed list of type identifiers into an owned one.
fn owned_types(types: &[u32]) -> (r: Vec<u32>)
    ensures
        r@ == types@,
{
    let mut r: Vec<u32> = Vec::new();
    let mut i: usize = 0;
    while i < types.len()
        invariant
            0 <= i <= types@.len(),
            r@ == types@.subrange(0, i as int),
        decreases types@.len() - i,
    {
        r.push(types[i]);
        proof {
            assert(r@ =~= types@.subrange(0, i + 1 as int));
        }
        i = i + 1;
    }
    proof {
        assert(r@ =~= types@);
    }
    r
}

/// A per-connection store of prepared-statement handles, keyed by query text
/// and parameter-type identifiers, with an entry count kept equal to the
/// number of distinct keys currently mapped.
pub struct StatementCache<S> {
    entries: Vec<(StatementCacheKey, S)>,
    size: usize,
}

impl<S> View for StatementCache<S> {
    type V = Map<(Seq<char>, Seq<u32>), S>;

    closed spec fn view(&self) -> Map<(Seq<char>, Seq<u32>), S> {
        entries_map(self.entries@)
    }
}

impl<S> StatementCache<S> {
    /// Stored keys are distinct and the counter matches the entry count.
    pub closed spec fn wf(&self) -> bool {
        &&& distinct_keys(self.entries@)
        &&& self.size == self.entries@.len()
    }

    /// An empty cache.
    pub fn new() -> (c: StatementCache<S>)
        ensures
            c.wf(),
            c@ == Map::<(Seq<char>, Seq<u32>), S>::empty(),
            c@.len() == 0,
    {
        let c = StatementCache { entries: Vec::new(), size: 0 };
        proof {
            lemma_entries_map_len(c.entries@);
        }
        c
    }

    /// Current entry count.
    pub fn size(&self) -> (r: usize)
        requires
            self.wf(),
        ensures
            r == self@.len(),
    {
        proof {
            lemma_entries_map_len(self.entries@);
        }
        self.size
    }

    /// The index of the entry carrying the given key, if any.
    fn find(&self, query: &str, types: &[u32]) -> (r: Option<usize>)
        requires
            self.wf(),
        ensures
            match r {
                Some(i) => i < self.entries@.len() && entry_key(self.entries@[i as int]) == (
                    query@,
                    types@,
                ),
                None => !self@.contains_key((query@, types@)),
            },
    {
        let mut i: usize = 0;
        while i < self.entries.len()
            invariant
                self.wf(),
                0 <= i <= self.entries@.len(),
                forall|j: int| 0 <= j < i ==> entry_key(self.entries@[j]) != (query@, types@),
            decreases self.entries@.len() - i,
        {
            let e = &self.entries[i];
            if key_matches(&e.0, query, types) {
                return Some(i);
            }
            i = i + 1;
        }
        proof {
            lemma_entries_map_domain(self.entries@, (query@, types@));
        }
        None
    }

    /// Structural lookup: the handle stored under the key, if any.
    pub fn get(&self, query: &str, types: &[u32]) -> (r: Option<&S>)
        requires
            self.wf(),
        ensures
            match r {
                Some(s) => self@.contains_key((query@, types@)) && *s == self@[(query@, types@)],
                None => !self@.contains_key((query@, types@)),
            },
    {
        match self.find(query, types) {
            Some(i) => {
                proof {
                    lemma_entries_map_index(self.entries@, i as int);
                }
                let e = &self.entries[i];
                Some(&e.1)
            },
            None => None,
        }
    }

    /// Store a handle under the key. A first insertion of a key grows the
    /// count by one; overwriting a present key leaves the count unchanged.
    pub fn insert(&mut self, query: &str, types: &[u32], stmt: S)
        requires
            old(self).wf(),
        ensures
            final(self).wf(),
            final(self)@ == old(self)@.insert((query@, types@), stmt),
            final(self)@.len() == old(self)@.len() + (if old(self)@.contains_key((query@, types@)) {
                0int
            } else {
                1int
            }),
    {
        let ghost k = (query@, types@);
        let key = StatementCacheKey { query: query.to_owned(), types: owned_types(types) };
        match self.find(query, types) {
            Some(i) => {
                proof {
                    lemma_entries_map_index(self.entries@, i as int);
                    lemma_entries_map_len(self.entries@);
                }
                let ghost s0 = self.entries@;
                self.entries.set(i, (key, stmt));
                proof {
                    let s1 = self.entries@;
                    assert(entry_key(s1[i as int]) == k);
                    assert forall|x: int, y: int|
                        0 <= x < y < s1.len() implies entry_key(s1[x]) != entry_key(s1[y]) by {
                        assert(entry_key(s0[x]) != entry_key(s0[y]));
                    }
                    lemma_entries_map_len(s1);
                    assert(self@ =~= old(self)@.insert(k, stmt)) by {
                        lemma_entries_map_domain(s0, k);
                        assert forall|kk: (Seq<char>, Seq<u32>)|
                            entries_map(s1).contains_key(kk) == old(self)@.insert(
                                k,
                                stmt,
                            ).contains_key(kk) by {
                            lemma_entries_map_domain(s1, kk);
                            lemma_entries_map_domain(s0, kk);
                            if entries_map(s1).contains_key(kk) {
                                let x = choose|x: int|
                                    0 <= x < s1.len() && entry_key(s1[x]) == kk;
                                if x != i {
                                    assert(entry_key(s0[x]) == kk);
                                }
                            }
                            if old(self)@.insert(k, stmt).contains_key(kk) && kk != k {
                                let x = choose|x: int|
                                    0 <= x < s0.len() && entry_key(s0[x]) == kk;
                                assert(x != i);
                                assert(entry_key(s1[x]) == kk);
                            }
                        }
                        assert forall|kk: (Seq<char>, Seq<u32>)|
                            entries_map(s1).contains_key(kk) implies entries_map(s1)[kk] == old(
                            self,
                        )@.insert(k, stmt)[kk] by {
                            lemma_entries_map_domain(s1, kk);
                            let x = choose|x: int| 0 <= x < s1.len() && entry_key(s1[x]) == kk;
                            lemma_entries_map_index(s1, x);
                            if x == i {
                                assert(kk == k);
                            } else {
                                assert(kk != k);
                                assert(s1[x] == s0[x]);
                                lemma_entries_map_index(s0, x);
                            }
                        }
                    }
                }
            },
            None => {
                proof {
                    lemma_entries_map_len(self.entries@);
                    lemma_entries_map_domain(self.entries@, k);
                }
                let ghost s0 = self.entries@;
                self.entries.push((key, stmt));
                self.size = self.entries.len();
                proof {
                    let s1 = self.entries@;
                    assert(s1.drop_last() =~= s0);
                    assert(entries_map(s1) == entries_map(s0).insert(k, stmt));
                    assert forall|x: int, y: int|
                        0 <= x < y < s1.len() implies entry_key(s1[x]) != entry_key(s1[y]) by {
                        if y < s1.len() - 1 {
                            assert(entry_key(s0[x]) != entry_key(s0[y]));
                        } else {
                            assert(entry_key(s0[x]) != k) by {
                                lemma_entries_map_index(s0, x);
                            }
                        }
                    }
                    lemma_entries_map_len(s1);
                }
            },
        }
    }

    /// Remove the entry under the key and hand back its handle; report
    /// absence, leaving the cache unchanged, if there is none.
    pub fn remove(&mut self, query: &str, types: &[u32]) -> (r: Option<S>)
        requires
            old(self).wf(),
        ensures
            final(self).wf(),
            match r {
                Some(s) => {
                    &&& old(self)@.contains_key((query@, types@))
                    &&& s == old(self)@[(query@, types@)]
                    &&& final(self)@ == old(self)@.remove((query@, types@))
                    &&& final(self)@.len() + 1 == old(self)@.len()
                },
                None => {
                    &&& !old(self)@.contains_key((query@, types@))
                    &&& final(self)@ == old(self)@
                    &&& final(self)@.len() == old(self)@.len()
                },
            },
    {
        let ghost k = (query@, types@);
        match self.find(query, types) {
            Some(i) => {
                proof {
                    lemma_entries_map_index(self.entries@, i as int);
                    lemma_entries_map_len(self.entries@);
                }
                let ghost s0 = self.entries@;
                let e = self.entries.remove(i);
                self.size = self.size - 1;
                proof {
                    let s1 = self.entries@;
                    assert forall|x: int, y: int|
                        0 <= x < y < s1.len() implies entry_key(s1[x]) != entry_key(s1[y]) by {
                        let x0 = if x < i { x } else { x + 1 };
                        let y0 = if y < i { y } else { y + 1 };
                        assert(s1[x] == s0[x0] && s1[y] == s0[y0]);
                        assert(entry_key(s0[x0]) != entry_key(s0[y0]));
                    }
                    lemma_entries_map_len(s1);
                    assert(self@ =~= old(self)@.remove(k)) by {
                        assert forall|kk: (Seq<char>, Seq<u32>)|
                            entries_map(s1).contains_key(kk) == old(self)@.remove(
                                k,
                            ).contains_key(kk) by {
                            lemma_entries_map_domain(s1, kk);
                            lemma_entries_map_domain(s0, kk);
                            if entries_map(s1).contains_key(kk) {
                                let x = choose|x: int|
                                    0 <= x < s1.len() && entry_key(s1[x]) == kk;
                                let x0 = if x < i { x } else { x + 1 };
                                assert(s1[x] == s0[x0]);
                                assert(entry_key(s0[x0]) == kk);
                                assert(kk != k);
                            }
                            if old(self)@.remove(k).contains_key(kk) {
                                let x = choose|x: int|
                                    0 <= x < s0.len() && entry_key(s0[x]) == kk;
                                assert(x != i);
                                let x1 = if x < i { x } else { x - 1 };
                                assert(s1[x1] == s0[x]);
                                assert(entry_key(s1[x1]) == kk);
                            }
                        }
                        assert forall|kk: (Seq<char>, Seq<u32>)|
                            entries_map(s1).contains_key(kk) implies entries_map(s1)[kk] == old(
                            self,
                        )@.remove(k)[kk] by {
                            lemma_entries_map_domain(s1, kk);
                            let x = choose|x: int| 0 <= x < s1.len() && entry_key(s1[x]) == kk;
                            lemma_entries_map_index(s1, x);
                            let x0 = if x < i { x } else { x + 1 };
                            assert(s1[x] == s0[x0]);
                            lemma_entries_map_index(s0, x0);
                        }
                    }
                }
                Some(e.1)
            },
            None => None,
        }
    }

    /// Empty the cache and reset the count to zero.
    pub fn clear(&mut self)
        requires
            old(self).wf(),
        ensures
            final(self).wf(),
            final(self)@ == Map::<(Seq<char>, Seq<u32>), S>::empty(),
            final(self)@.len() == 0,
    {
        self.entries.clear();
        self.size = 0;
        proof {
            lemma_entries_map_len(self.entries@);
        }
    }
}

/// Law: preparing the same statement twice in succession is served from the
/// cache the second time — the handle the first call stored under a key is
/// exactly what a later lookup of that key finds, so no second round trip is
/// needed.
pub proof fn lemma_prepare_twice<S>(
    before: Map<(Seq<char>, Seq<u32>), S>,
    q: Seq<char>,
    t: Seq<u32>,
    stmt: S,
)
    ensures
        before.insert((q, t), stmt).contains_key((q, t)),
        before.insert((q, t), stmt)[(q, t)] == stmt,
{
}

} // verus!
