//! The object cache and domain reputation: memoises fetched remote
//! documents with a freshness bound, and suppresses further attempts
//! against a host once its adverse-event count reaches the configured
//! ceiling, until a cooldown window has passed. The cache itself performs
//! no network call: callers ask for a [`FetchDecision`], perform the fetch
//! outside any lock when told to, and record the outcome.

use vstd::prelude::*;
use crate::json::{Json, JsonV};
use crate::iri::Iri;

verus! {

/// A fetched remote document plus the instant (seconds) it was fetched.
#[derive(Debug)]
pub struct CachedItem {
    pub item: Json,
    pub fetched_at: u64,
}

/// Per-host adverse-event counters.
#[derive(Debug, Clone, Copy, PartialEq, Eq, Structural)]
pub struct DomainRequest {
    pub last_adverse: u64,
    pub adverse_events: u64,
}

/// Failure modes of a cached fetch.
#[derive(Debug, Clone, Copy, PartialEq, Eq, Structural)]
pub enum FetchErr {
    MaxAdverse,
    DoesNotExist,
}

/// What a caller should do for one identifier right now.
#[derive(Debug)]
pub enum FetchDecision {
    /// A fresh copy is cached; use it without any network call.
    UseCached(Json),
    /// Nothing fresh is cached and the host is not suppressed: fetch.
    MustFetch,
    /// The host has reached its adverse-event ceiling: fail with
    /// [`FetchErr::MaxAdverse`] without any network call.
    Suppressed,
}

pub enum FetchDecisionV {
    UseCached(JsonV),
    MustFetch,
    Suppressed,
}

impl View for FetchDecision {
    type V = FetchDecisionV;

    open spec fn view(&self) -> FetchDecisionV {
        match self {
            FetchDecision::UseCached(j) => FetchDecisionV::UseCached(j@),
            FetchDecision::MustFetch => FetchDecisionV::MustFetch,
            FetchDecision::Suppressed => FetchDecisionV::Suppressed,
        }
    }
}

/// First entry under `k`, as document value and fetch instant.
pub open spec fn spec_find_entry(s: Seq<(String, CachedItem)>, k: Seq<char>) -> Option<
    (JsonV, u64),
>
    decreases s.len(),
{
    if s.len() == 0 {
        None
    } else if s[0].0@ == k {
        Some((s[0].1.item@, s[0].1.fetched_at))
    } else {
        spec_find_entry(s.drop_first(), k)
    }
}

/// First reputation record under `k`.
pub open spec fn spec_find_domain(s: Seq<(String, DomainRequest)>, k: Seq<char>) -> Option<
    DomainRequest,
>
    decreases s.len(),
{
    if s.len() == 0 {
        None
    } else if s[0].0@ == k {
        Some(s[0].1)
    } else {
        spec_find_domain(s.drop_first(), k)
    }
}

/// The cache: fetched documents keyed by identifier, reputation keyed by
/// host, and the policy parameters. The application wraps a value of this
/// type in its own reader-writer lock; no method here performs I/O, so the
/// lock is never held across a network call.
pub struct Cache {
    pub entries: Vec<(String, CachedItem)>,
    pub domains: Vec<(String, DomainRequest)>,
    pub ttl_secs: u64,
    pub max_adverse: u64,
    pub cooldown_secs: u64,
}

impl Cache {
    /// Fresh means the age of the copy is under the TTL (a clock that
    /// stepped backwards counts as fresh).
    pub open spec fn spec_fresh(&self, fetched_at: u64, now: u64) -> bool {
        if now >= fetched_at {
            now - fetched_at < self.ttl_secs
        } else {
            true
        }
    }

    /// Suppressed means the host's adverse-event count has reached the
    /// ceiling and the cooldown window since the last adverse event has
    /// not yet passed.
    pub open spec fn spec_suppressed(&self, d: Option<DomainRequest>, now: u64) -> bool {
        match d {
            Some(dr) => dr.adverse_events >= self.max_adverse && (now < dr.last_adverse || now
                - dr.last_adverse < self.cooldown_secs),
            None => false,
        }
    }

    /// The decision for one identifier: a fresh cached copy wins; an
    /// absent or stale copy falls through to the host's reputation.
    pub open spec fn spec_decision(&self, id: Seq<char>, host: Seq<char>, now: u64) -> FetchDecisionV {
        match spec_find_entry(self.entries@, id) {
            Some(e) => if self.spec_fresh(e.1, now) {
                FetchDecisionV::UseCached(e.0)
            } else if self.spec_suppressed(spec_find_domain(self.domains@, host), now) {
                FetchDecisionV::Suppressed
            } else {
                FetchDecisionV::MustFetch
            },
            None => if self.spec_suppressed(spec_find_domain(self.domains@, host), now) {
                FetchDecisionV::Suppressed
            } else {
                FetchDecisionV::MustFetch
            },
        }
    }

    pub fn new(ttl_secs: u64, max_adverse: u64, cooldown_secs: u64) -> (r: Cache)
        ensures
            r.entries@.len() == 0,
            r.domains@.len() == 0,
            r.ttl_secs == ttl_secs,
            r.max_adverse == max_adverse,
            r.cooldown_secs == cooldown_secs,
    {
        Cache {
            entries: Vec::new(),
            domains: Vec::new(),
            ttl_secs,
            max_adverse,
            cooldown_secs,
        }
    }

    /// The cached document under `id`, with its fetch instant.
    fn find_entry(&self, id: &str) -> (r: Option<(&Json, u64)>)
        ensures
            match r {
                Some(p) => spec_find_entry(self.entries@, id@) == Some((p.0@, p.1)),
                None => spec_find_entry(self.entries@, id@) is None,
            },
    {
        let n = self.entries.len();
        let mut i: usize = 0;
        proof {
            assert(self.entries@.skip(0) =~= self.entries@);
        }
        while i < n
            invariant
                0 <= i <= n,
                n == self.entries@.len(),
                spec_find_entry(self.entries@, id@) == spec_find_entry(
                    self.entries@.skip(i as int),
                    id@,
                ),
            decreases n - i,
        {
            proof {
                assert(self.entries@.skip(i as int)[0] == self.entries@[i as int]);
            }
            if crate::util::str_eq(self.entries[i].0.as_str(), id) {
                return Some((&self.entries[i].1.item, self.entries[i].1.fetched_at));
            }
            proof {
                assert(self.entries@.skip(i as int).drop_first() =~= self.entries@.skip(i + 1));
            }
            i += 1;
        }
        proof {
            assert(self.entries@.skip(n as int) =~= Seq::<(String, CachedItem)>::empty());
        }
        None
    }

    /// The reputation record of `host`.
    fn find_domain(&self, host: &str) -> (r: Option<DomainRequest>)
        ensures
            r == spec_find_domain(self.domains@, host@),
    {
        let n = self.domains.len();
        let mut i: usize = 0;
        proof {
            assert(self.domains@.skip(0) =~= self.domains@);
        }
        while i < n
            invariant
                0 <= i <= n,
                n == self.domains@.len(),
                spec_find_domain(self.domains@, host@) == spec_find_domain(
                    self.domains@.skip(i as int),
                    host@,
                ),
            decreases n - i,
        {
            proof {
                assert(self.domains@.skip(i as int)[0] == self.domains@[i as int]);
            }
            if crate::util::str_eq(self.domains[i].0.as_str(), host) {
                return Some(self.domains[i].1);
            }
            proof {
                assert(self.domains@.skip(i as int).drop_first() =~= self.domains@.skip(i + 1));
            }
            i += 1;
        }
        proof {
            assert(self.domains@.skip(n as int) =~= Seq::<(String, DomainRequest)>::empty());
        }
        None
    }

    /// The decision for one identifier at instant `now`: a fresh cached
    /// copy, an order to fetch, or suppression of the identifier's host.
    pub fn decision(&self, id: &Iri, now: u64) -> (r: FetchDecision)
        ensures
            r@ == self.spec_decision(id@.value, id@.host, now),
    {
        match self.find_entry(id.as_str()) {
            Some(p) => {
                let fresh = if now >= p.1 {
                    now - p.1 < self.ttl_secs
                } else {
                    true
                };
                if fresh {
                    return FetchDecision::UseCached(p.0.duplicate());
                }
                if self.suppressed_now(id, now) {
                    FetchDecision::Suppressed
                } else {
                    FetchDecision::MustFetch
                }
            },
            None => {
                if self.suppressed_now(id, now) {
                    FetchDecision::Suppressed
                } else {
                    FetchDecision::MustFetch
                }
            },
        }
    }

    /// The cached copy under `id`, fresh or stale, with its fetch instant.
    /// Stale entries are replaced on refetch, never deleted, so the
    /// previous value stays available to a caller that chooses to tolerate
    /// staleness.
    pub fn lookup(&self, id: &Iri) -> (r: Option<(Json, u64)>)
        ensures
            match r {
                Some(p) => spec_find_entry(self.entries@, id@.value) == Some((p.0@, p.1)),
                None => spec_find_entry(self.entries@, id@.value) is None,
            },
    {
        match self.find_entry(id.as_str()) {
            Some(p) => Some((p.0.duplicate(), p.1)),
            None => None,
        }
    }

    /// Whether the identifier's host is currently suppressed.
    fn suppressed_now(&self, id: &Iri, now: u64) -> (r: bool)
        ensures
            r == self.spec_suppressed(spec_find_domain(self.domains@, id@.host), now),
    {
        match self.find_domain(id.host_str()) {
            Some(dr) => dr.adverse_events >= self.max_adverse && (now < dr.last_adverse || now
                - dr.last_adverse < self.cooldown_secs),
            None => false,
        }
    }

    /// Records a successful fetch: the entry for `id` now holds `doc`
    /// fetched at `now`; every other identifier's entry is unchanged.
    pub fn record_success(&mut self, id: &Iri, doc: Json, now: u64)
        ensures
            spec_find_entry(final(self).entries@, id@.value) == Some((doc@, now)),
            forall|k: Seq<char>|
                k != id@.value ==> spec_find_entry(final(self).entries@, k) == spec_find_entry(
                    old(self).entries@,
                    k,
                ),
            final(self).domains@ == old(self).domains@,
            final(self).ttl_secs == old(self).ttl_secs,
            final(self).max_adverse == old(self).max_adverse,
            final(self).cooldown_secs == old(self).cooldown_secs,
    {
        let ghost doc_view = doc@;
        let pair = (id.as_str().to_owned(), CachedItem { item: doc, fetched_at: now });
        self.entries.insert(0, pair);
        proof {
            assert(final(self).entries@ =~= seq![pair] + old(self).entries@);
            assert forall|k: Seq<char>| true implies spec_find_entry(
                seq![pair] + old(self).entries@,
                k,
            ) == if k == id@.value {
                Some((doc_view, now))
            } else {
                spec_find_entry(old(self).entries@, k)
            } by {
                assert((seq![pair] + old(self).entries@)[0] == pair);
                assert((seq![pair] + old(self).entries@).drop_first() =~= old(self).entries@);
            }
        }
    }

    /// Records a failed fetch or delivery against `host`: its adverse-event
    /// count grows by one (saturating) and its last-adverse instant becomes
    /// `now`; every other host's record is unchanged. Counters decay with
    /// time: once the cooldown window since the last adverse event has
    /// passed, the count restarts at one instead of accumulating forever.
    pub fn record_failure(&mut self, host: &str, now: u64)
        ensures
            spec_find_domain(final(self).domains@, host@) == Some(
                DomainRequest {
                    last_adverse: now,
                    adverse_events: match spec_find_domain(old(self).domains@, host@) {
                        Some(dr) => if now >= dr.last_adverse && now - dr.last_adverse
                            >= old(self).cooldown_secs {
                            1
                        } else if dr.adverse_events == u64::MAX {
                            u64::MAX
                        } else {
                            (dr.adverse_events + 1) as u64
                        },
                        None => 1,
                    },
                },
            ),
            forall|k: Seq<char>|
                k != host@ ==> spec_find_domain(final(self).domains@, k) == spec_find_domain(
                    old(self).domains@,
                    k,
                ),
            final(self).entries@ == old(self).entries@,
            final(self).ttl_secs == old(self).ttl_secs,
            final(self).max_adverse == old(self).max_adverse,
            final(self).cooldown_secs == old(self).cooldown_secs,
    {
        let count = match self.find_domain(host) {
            Some(dr) => {
                if now >= dr.last_adverse && now - dr.last_adverse >= self.cooldown_secs {
                    1
                } else if dr.adverse_events == u64::MAX {
                    u64::MAX
                } else {
                    dr.adverse_events + 1
                }
            },
            None => 1,
        };
        let pair = (host.to_owned(), DomainRequest { last_adverse: now, adverse_events: count });
        self.domains.insert(0, pair);
        proof {
            assert(final(self).domains@ =~= seq![pair] + old(self).domains@);
            assert forall|k: Seq<char>| true implies spec_find_domain(
                seq![pair] + old(self).domains@,
                k,
            ) == if k == host@ {
                Some(pair.1)
            } else {
                spec_find_domain(old(self).domains@, k)
            } by {
                assert((seq![pair] + old(self).domains@)[0] == pair);
                assert((seq![pair] + old(self).domains@).drop_first() =~= old(self).domains@);
            }
        }
    }
}

/// Cache freshness: right after a successful fetch of `id` at instant `t`,
/// any decision taken before the TTL elapses returns the cached document
/// and orders no fetch.
pub proof fn lemma_cache_freshness(c: Cache, id: Seq<char>, host: Seq<char>, doc: JsonV, t: u64, now: u64)
    requires
        spec_find_entry(c.entries@, id) == Some((doc, t)),
        now >= t ==> now - t < c.ttl_secs,
    ensures
        c.spec_decision(id, host, now) == FetchDecisionV::UseCached(doc),
{
}

/// Reputation suppression: once a host's consecutive failures have reached
/// the configured ceiling, and the cooldown window has not passed, a
/// decision for any identifier of that host without a fresh cached copy is
/// the distinguished suppression outcome — no network call.
pub proof fn lemma_reputation_suppression(c: Cache, id: Seq<char>, host: Seq<char>, now: u64)
    requires
        spec_find_entry(c.entries@, id) is None,
        spec_find_domain(c.domains@, host) matches Some(dr) && dr.adverse_events >= c.max_adverse
            && (now < dr.last_adverse || now - dr.last_adverse < c.cooldown_secs),
    ensures
        c.spec_decision(id, host, now) == FetchDecisionV::Suppressed,
{
}

} // verus!
