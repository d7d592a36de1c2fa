//! The pool-facing connection manager.
//!
//! The external pool drives each connection through three calls: create
//! (open and register), recycle (decide whether the connection may be
//! reused, probing it if the configured [`RecyclingMethod`] asks for it),
//! and detach (permanent removal). The network round trips themselves are
//! the caller's: `create` here registers the fresh connection's cache,
//! [`Manager::recycle`] decides what the pool must do, and
//! [`recycle_finish`] turns the probe's outcome into the recycle result.

use vstd::prelude::*;
use crate::cache::StatementCache;
use crate::registry::StatementCaches;

verus! {

/// The cleanup statement the `Clean` recycling method runs before a
/// connection is reused: it discards session-local state.
pub const CLEAN_QUERY: &'static str = "CLOSE ALL; SET SESSION AUTHORIZATION DEFAULT; RESET ALL; UNLISTEN *; SELECT pg_advisory_unlock_all(); DISCARD TEMP; DISCARD SEQUENCES;";

/// Policy deciding what, if anything, is executed against a connection
/// before it is reused.
pub enum RecyclingMethod {
    /// No probe at all: reuse relies solely on the closed flag. Cheapest,
    /// but a connection that silently dropped off the network may get
    /// through until its first use fails.
    Fast,
    /// Probe with a no-op query, so a dead connection is caught here.
    Verified,
    /// Probe with [`CLEAN_QUERY`], discarding session state on the way.
    Clean,
    /// Probe with a caller-supplied statement.
    Custom(String),
}

impl RecyclingMethod {
    /// The probe statement the method designates, if any.
    pub open spec fn probe_query_spec(&self) -> Option<Seq<char>> {
        match self {
            RecyclingMethod::Fast => None,
            RecyclingMethod::Verified => Some(""@),
            RecyclingMethod::Clean => Some(CLEAN_QUERY@),
            RecyclingMethod::Custom(sql) => Some(sql@),
        }
    }

    /// The probe statement to execute before reuse, or nothing for `Fast`.
    pub fn query(&self) -> (r: Option<&str>)
        ensures
            match r {
                Some(q) => self.probe_query_spec() == Some(q@),
                None => self.probe_query_spec() is None,
            },
    {
        match self {
            RecyclingMethod::Fast => None,
            RecyclingMethod::Verified => Some(""),
            RecyclingMethod::Clean => Some(CLEAN_QUERY),
            RecyclingMethod::Custom(sql) => Some(sql.as_str()),
        }
    }
}

/// Law: `Fast` is exactly the method that designates no probe statement —
/// an open connection recycles without any query under `Fast` and only
/// under `Fast`.
pub proof fn lemma_probe_query_per_method(m: RecyclingMethod)
    ensures
        m is Fast <==> m.probe_query_spec() is None,
{
}

/// Configuration of a [`Manager`], fixed at construction.
pub struct ManagerConfig {
    /// How connections are checked before reuse.
    pub recycling_method: RecyclingMethod,
}

impl Default for ManagerConfig {
    /// The default configuration recycles the `Fast` way.
    fn default() -> (c: Self)
        ensures
            c.recycling_method is Fast,
    {
        ManagerConfig { recycling_method: RecyclingMethod::Fast }
    }
}

/// Why a connection failed to recycle. Either outcome is fatal to that
/// connection: the pool discards it and may create a replacement.
pub enum RecycleError<E> {
    /// The connection reported itself closed before any probe ran.
    Closed,
    /// The probe statement failed with the underlying client's error.
    Backend(E),
}

/// What the pool must do with a connection it wants to reuse.
pub enum RecycleDecision<'a> {
    /// The connection is closed: fail the recycle and discard it.
    Closed,
    /// Hand the connection out again; no probe is needed.
    Reuse,
    /// Execute this probe statement first; reuse only if it succeeds.
    Probe(&'a str),
}

/// Creates connections for the pool and decides when one may be reused;
/// owns the registry of every handed-out statement cache.
pub struct Manager<S> {
    /// The recycling configuration, fixed at construction.
    pub config: ManagerConfig,
    /// The statement caches of the connections this manager handed out.
    pub statement_caches: StatementCaches<S>,
}

impl<S> Manager<S> {
    /// The registry and every cache in it are well formed.
    pub open spec fn wf(&self) -> bool {
        self.statement_caches.wf()
    }

    /// A manager with the default (`Fast`) configuration.
    pub fn new() -> (m: Manager<S>)
        ensures
            m.wf(),
            m.config.recycling_method is Fast,
            m.statement_caches@ == Seq::<Option<Map<(Seq<char>, Seq<u32>), S>>>::empty(),
    {
        Manager::from_config(ManagerConfig::default())
    }

    /// A manager with the given configuration and no connections yet.
    pub fn from_config(config: ManagerConfig) -> (m: Manager<S>)
        ensures
            m.wf(),
            m.config == config,
            m.statement_caches@ == Seq::<Option<Map<(Seq<char>, Seq<u32>), S>>>::empty(),
    {
        Manager { config, statement_caches: StatementCaches::new() }
    }

    /// Register a newly opened connection: give it an empty statement cache,
    /// record the cache in the registry, and hand back its identifier. The
    /// physical open (and the spawning of the connection's background
    /// driver) happens outside, before this is called.
    pub fn create(&mut self) -> (id: usize)
        requires
            old(self).wf(),
        ensures
            final(self).wf(),
            final(self).config == old(self).config,
            id == old(self).statement_caches@.len(),
            final(self).statement_caches@ == old(self).statement_caches@.push(
                Some(Map::<(Seq<char>, Seq<u32>), S>::empty()),
            ),
    {
        let cache = StatementCache::new();
        self.statement_caches.attach(cache)
    }

    /// Decide whether a connection may be reused. A connection reporting
    /// closed always fails with the closed signal, whatever the configured
    /// method; otherwise the configured method decides whether reuse is
    /// immediate or must first survive a probe statement.
    pub fn recycle(&self, is_closed: bool) -> (d: RecycleDecision<'_>)
        ensures
            is_closed ==> d is Closed,
            !is_closed ==> match self.config.recycling_method.probe_query_spec() {
                Some(q) => d matches RecycleDecision::Probe(p) && p@ == q,
                None => d is Reuse,
            },
    {
        if is_closed {
            return RecycleDecision::Closed;
        }
        match self.config.recycling_method.query() {
            Some(sql) => RecycleDecision::Probe(sql),
            None => RecycleDecision::Reuse,
        }
    }

    /// Permanently remove a connection: empty its registry slot and hand its
    /// cache back, so no later registry-wide operation reaches it.
    pub fn detach(&mut self, id: usize) -> (r: Option<StatementCache<S>>)
        requires
            old(self).wf(),
        ensures
            final(self).wf(),
            final(self).config == old(self).config,
            final(self).statement_caches@.len() == old(self).statement_caches@.len(),
            old(self).statement_caches.live(id as int) ==> (r matches Some(c) && c.wf()
                && Some(c@) == old(self).statement_caches@[id as int]
                && final(self).statement_caches@ == old(self).statement_caches@.update(
                id as int,
                None,
            )),
            !old(self).statement_caches.live(id as int) ==> (r is None
                && final(self).statement_caches@ == old(self).statement_caches@),
    {
        self.statement_caches.detach(id)
    }
}

/// Turn the probe statement outcome into the recycle result: a probe
/// that succeeded lets the connection be reused, and a probe that failed
/// fails the recycle with exactly that error. Recycling never retries.
pub fn recycle_finish<E>(probe_result: Result<(), E>) -> (r: Result<(), RecycleError<E>>)
    ensures
        probe_result is Ok ==> r is Ok,
        probe_result matches Err(e) ==> r matches Err(f) && f matches RecycleError::Backend(b)
            && b == e,
{
    match probe_result {
        Ok(()) => Ok(()),
        Err(e) => Err(RecycleError::Backend(e)),
    }
}

} // verus!
