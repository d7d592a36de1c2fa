//! Connection wrappers: cache-aware preparation and transactions.
//!
//! A [`ClientWrapper`] stands for one checked-out connection and carries the
//! identifier of that connection's slot in the registry. Preparing a
//! statement consults the cache first; only on a miss does the caller go to
//! the wire, recording the fresh handle afterwards with `insert_prepared`.
//! A [`Transaction`] opened from a wrapper borrows the wrapper's cache — it
//! carries the same slot identifier — so statements prepared on either side
//! of a transaction boundary are visible on the other. A
//! [`TransactionBuilder`] accumulates isolation level, read-only mode and
//! deferrability before the transaction starts, again against the same
//! shared cache.

use vstd::prelude::*;
use crate::registry::StatementCaches;

verus! {

/// One checked-out connection's handle onto its statement cache.
pub struct ClientWrapper {
    /// The registry slot of this connection's statement cache.
    pub cache_id: usize,
}

/// A transaction running on a connection; it borrows the parent's statement
/// cache by addressing the same registry slot.
pub struct Transaction {
    /// The registry slot of the parent connection's statement cache.
    pub cache_id: usize,
}

/// Isolation level a transaction can be configured with.
#[derive(Clone, Copy, Debug, PartialEq, Eq, Structural)]
pub enum IsolationLevel {
    /// Weakest level: statements may see uncommitted changes.
    ReadUncommitted,
    /// Statements see only committed data.
    ReadCommitted,
    /// All statements of the transaction see one snapshot.
    RepeatableRead,
    /// Full serializability.
    Serializable,
}

/// Fluent configuration for a transaction with custom settings; each setter
/// consumes and returns the builder, and `start` yields a [`Transaction`]
/// bound to the same shared cache.
pub struct TransactionBuilder {
    /// The configured isolation level, if any.
    pub isolation_level: Option<IsolationLevel>,
    /// The configured read-only mode, if any.
    pub read_only: Option<bool>,
    /// The configured deferrability, if any.
    pub deferrable: Option<bool>,
    /// The registry slot of the parent connection's statement cache.
    pub cache_id: usize,
}

impl ClientWrapper {
    /// Wrap a freshly created connection whose cache sits in slot `cache_id`.
    pub fn new(cache_id: usize) -> (w: ClientWrapper)
        ensures
            w.cache_id == cache_id,
    {
        ClientWrapper { cache_id }
    }

    /// Cache lookup for a statement prepared with no parameter types.
    /// Nothing found means the caller must prepare over the wire and then
    /// record the handle with `insert_prepared`.
    pub fn prepare<'s, S>(&self, caches: &'s StatementCaches<S>, query: &str) -> (r: Option<&'s S>)
        requires
            caches.wf(),
        ensures
            match r {
                Some(s) => caches.spec_lookup(self.cache_id as int, (query@, Seq::<u32>::empty()))
                    == Some(*s),
                None => caches.spec_lookup(
                    self.cache_id as int,
                    (query@, Seq::<u32>::empty()),
                ) is None,
            },
    {
        let types: Vec<u32> = Vec::new();
        self.prepare_typed(caches, query, types.as_slice())
    }

    /// Cache lookup for a statement prepared with the given parameter types.
    /// A hit returns the cached handle without touching the connection.
    pub fn prepare_typed<'s, S>(
        &self,
        caches: &'s StatementCaches<S>,
        query: &str,
        types: &[u32],
    ) -> (r: Option<&'s S>)
        requires
            caches.wf(),
        ensures
            match r {
                Some(s) => caches.spec_lookup(self.cache_id as int, (query@, types@)) == Some(*s),
                None => caches.spec_lookup(self.cache_id as int, (query@, types@)) is None,
            },
    {
        caches.cache_get(self.cache_id, query, types)
    }

    /// Record a handle the caller just prepared over the wire, so later
    /// lookups of the same key are served from the cache. Handles are only
    /// recorded on success: a failed preparation caches nothing.
    pub fn insert_prepared<S>(
        &self,
        caches: &mut StatementCaches<S>,
        query: &str,
        types: &[u32],
        stmt: S,
    )
        requires
            old(caches).wf(),
        ensures
            final(caches).wf(),
            final(caches)@.len() == old(caches)@.len(),
            old(caches).live(self.cache_id as int) ==> final(caches)@ == old(caches)@.update(
                self.cache_id as int,
                Some(old(caches)@[self.cache_id as int].unwrap().insert((query@, types@), stmt)),
            ),
            !old(caches).live(self.cache_id as int) ==> final(caches)@ == old(caches)@,
    {
        caches.cache_insert(self.cache_id, query, types, stmt)
    }

    /// Begin a transaction: the handle borrows this wrapper's statement
    /// cache, addressing the same registry slot.
    pub fn transaction(&self) -> (t: Transaction)
        ensures
            t.cache_id == self.cache_id,
    {
        Transaction { cache_id: self.cache_id }
    }

    /// A builder for a transaction with custom settings, bound to this
    /// wrapper's statement cache and with nothing configured yet.
    pub fn build_transaction(&self) -> (b: TransactionBuilder)
        ensures
            b.cache_id == self.cache_id,
            b.isolation_level is None,
            b.read_only is None,
            b.deferrable is None,
    {
        TransactionBuilder {
            isolation_level: None,
            read_only: None,
            deferrable: None,
            cache_id: self.cache_id,
        }
    }
}

impl Transaction {
    /// Cache lookup for a statement with no parameter types, against the
    /// parent connection's cache.
    pub fn prepare<'s, S>(&self, caches: &'s StatementCaches<S>, query: &str) -> (r: Option<&'s S>)
        requires
            caches.wf(),
        ensures
            match r {
                Some(s) => caches.spec_lookup(self.cache_id as int, (query@, Seq::<u32>::empty()))
                    == Some(*s),
                None => caches.spec_lookup(
                    self.cache_id as int,
                    (query@, Seq::<u32>::empty()),
                ) is None,
            },
    {
        let types: Vec<u32> = Vec::new();
        self.prepare_typed(caches, query, types.as_slice())
    }

    /// Cache lookup against the parent connection's cache: statements the
    /// parent already prepared are found here without a round trip.
    pub fn prepare_typed<'s, S>(
        &self,
        caches: &'s StatementCaches<S>,
        query: &str,
        types: &[u32],
    ) -> (r: Option<&'s S>)
        requires
            caches.wf(),
        ensures
            match r {
                Some(s) => caches.spec_lookup(self.cache_id as int, (query@, types@)) == Some(*s),
                None => caches.spec_lookup(self.cache_id as int, (query@, types@)) is None,
            },
    {
        caches.cache_get(self.cache_id, query, types)
    }

    /// Record a handle prepared inside the transaction in the parent's
    /// cache, where it stays visible after the transaction ends.
    pub fn insert_prepared<S>(
        &self,
        caches: &mut StatementCaches<S>,
        query: &str,
        types: &[u32],
        stmt: S,
    )
        requires
            old(caches).wf(),
        ensures
            final(caches).wf(),
            final(caches)@.len() == old(caches)@.len(),
            old(caches).live(self.cache_id as int) ==> final(caches)@ == old(caches)@.update(
                self.cache_id as int,
                Some(old(caches)@[self.cache_id as int].unwrap().insert((query@, types@), stmt)),
            ),
            !old(caches).live(self.cache_id as int) ==> final(caches)@ == old(caches)@,
    {
        caches.cache_insert(self.cache_id, query, types, stmt)
    }

    /// Begin a nested transaction; it borrows the same cache, transitively.
    pub fn transaction(&self) -> (t: Transaction)
        ensures
            t.cache_id == self.cache_id,
    {
        Transaction { cache_id: self.cache_id }
    }
}

impl TransactionBuilder {
    /// Set the isolation level, keeping everything else.
    pub fn isolation_level(self, isolation_level: IsolationLevel) -> (b: Self)
        ensures
            b.isolation_level == Some(isolation_level),
            b.read_only == self.read_only,
            b.deferrable == self.deferrable,
            b.cache_id == self.cache_id,
    {
        TransactionBuilder {
            isolation_level: Some(isolation_level),
            read_only: self.read_only,
            deferrable: self.deferrable,
            cache_id: self.cache_id,
        }
    }

    /// Set the access mode, keeping everything else.
    pub fn read_only(self, read_only: bool) -> (b: Self)
        ensures
            b.read_only == Some(read_only),
            b.isolation_level == self.isolation_level,
            b.deferrable == self.deferrable,
            b.cache_id == self.cache_id,
    {
        TransactionBuilder {
            isolation_level: self.isolation_level,
            read_only: Some(read_only),
            deferrable: self.deferrable,
            cache_id: self.cache_id,
        }
    }

    /// Set the deferrability, keeping everything else.
    pub fn deferrable(self, deferrable: bool) -> (b: Self)
        ensures
            b.deferrable == Some(deferrable),
            b.isolation_level == self.isolation_level,
            b.read_only == self.read_only,
            b.cache_id == self.cache_id,
    {
        TransactionBuilder {
            isolation_level: self.isolation_level,
            read_only: self.read_only,
            deferrable: Some(deferrable),
            cache_id: self.cache_id,
        }
    }

    /// Begin the configured transaction: like every transaction it borrows
    /// the parent connection's cache, addressing the same registry slot.
    pub fn start(self) -> (t: Transaction)
        ensures
            t.cache_id == self.cache_id,
    {
        Transaction { cache_id: self.cache_id }
    }
}

/// Law: a transaction borrows its parent connection's cache rather than a
/// copy of it. Both address the same registry slot, so a statement recorded
/// through either side is immediately found through the other — in
/// particular one prepared inside a transaction stays visible through the
/// wrapper after the transaction commits.
pub proof fn lemma_transaction_shares_cache<S>(
    caches: Seq<Option<Map<(Seq<char>, Seq<u32>), S>>>,
    id: int,
    q: Seq<char>,
    t: Seq<u32>,
    stmt: S,
)
    requires
        0 <= id < caches.len(),
        caches[id] is Some,
    ensures
        ({
            let after = caches.update(id, Some(caches[id].unwrap().insert((q, t), stmt)));
            &&& after[id] is Some
            &&& after[id].unwrap().contains_key((q, t))
            &&& after[id].unwrap()[(q, t)] == stmt
        }),
{
}

} // verus!
