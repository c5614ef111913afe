use crate::auth::valid_at_spec;
use crate::auth::BearerBearer;
use crate::error::TokenError;
use std::collections::HashMap;
use vstd::prelude::*;

verus! {

broadcast use vstd::std_specs::hash::group_hash_axioms;

/// The single slot of an expiring cache.
pub enum CacheState {
    /// Nothing has been fetched yet, or the last refresh failed.
    Empty,
    /// The credential published by the last successful refresh.
    Valid(BearerBearer),
    /// A refresh is outstanding.
    Refreshing,
}

/// What a caller of [`ExpiringCache::get`] has to do next.
pub enum GetStep {
    /// The cached credential is valid: use it.
    Ready(BearerBearer),
    /// This caller performs the refresh of the given episode and reports its
    /// outcome with [`ExpiringCache::finish_refresh`].
    Refresh(u64),
    /// A refresh is outstanding: wait for the outcome of the given episode and
    /// take it with [`ExpiringCache::collect`].
    Wait(u64),
}

/// What a waiting caller gets from [`ExpiringCache::collect`].
pub enum Collected {
    /// The episode has not finished yet: keep waiting.
    Pending,
    /// The outcome the episode published.
    Settled(Result<BearerBearer, TokenError>),
    /// The episode published a credential that has expired since: ask again
    /// with [`ExpiringCache::get`].
    Stale,
}

/// The outcome of a finished refresh episode, kept for the callers that
/// waited on it and have not taken it yet.
pub struct Settled {
    pub outcome: Result<BearerBearer, TokenError>,
    pub waiters: u64,
}

/// The abstract state of an expiring cache.
pub struct CacheView {
    pub state: CacheState,
    /// Number of refresh episodes started so far; the latest one has this id.
    pub episode: u64,
    /// Callers waiting on the outstanding episode.
    pub waiting: u64,
    /// Outcomes of finished episodes that waiting callers still have to take.
    pub settled: Map<u64, Settled>,
}

impl CacheView {
    pub open spec fn inv(self) -> bool {
        &&& !(self.state is Refreshing) ==> self.waiting == 0
        &&& forall|k: u64| #[trigger]
            self.settled.contains_key(k) ==> k <= self.episode && self.settled[k].waiters > 0
        &&& self.state is Refreshing ==> !self.settled.contains_key(self.episode)
    }

    /// Room is left to start one more episode and to register one more waiter.
    pub open spec fn has_room(self) -> bool {
        self.episode < u64::MAX && self.waiting < u64::MAX
    }
}

/// One call of `get` at time `now`: serve a credential that is still valid,
/// join the outstanding refresh, or start a new refresh episode.
pub open spec fn get_spec(m: CacheView, now: int) -> (CacheView, GetStep) {
    let k = (m.episode + 1) as u64;
    let start = (CacheView { state: CacheState::Refreshing, episode: k, waiting: 0, ..m }, GetStep::Refresh(k));
    match m.state {
        CacheState::Valid(b) => if valid_at_spec(b, now) {
            (m, GetStep::Ready(b))
        } else {
            start
        },
        CacheState::Refreshing => (CacheView { waiting: (m.waiting + 1) as u64, ..m }, GetStep::Wait(m.episode)),
        CacheState::Empty => start,
    }
}

/// What a refresh publishes: a fetched credential that is no longer valid at
/// `now` is reported as expired rather than handed out.
pub open spec fn published(outcome: Result<BearerBearer, TokenError>, now: int) -> Result<BearerBearer, TokenError> {
    match outcome {
        Ok(b) => if valid_at_spec(b, now) {
            Ok(b)
        } else {
            Err(TokenError::Expired)
        },
        Err(e) => Err(e),
    }
}

/// Finishing the outstanding episode: the published outcome replaces the
/// slot (a failure empties it) and is kept for every caller that waited.
pub open spec fn finish_spec(m: CacheView, outcome: Result<BearerBearer, TokenError>, now: int) -> (CacheView, Result<BearerBearer, TokenError>) {
    let p = published(outcome, now);
    let state = match p {
        Ok(b) => CacheState::Valid(b),
        Err(_) => CacheState::Empty,
    };
    let settled = if m.waiting > 0 {
        m.settled.insert(m.episode, Settled { outcome: p, waiters: m.waiting })
    } else {
        m.settled
    };
    (CacheView { state, waiting: 0, settled, ..m }, p)
}

/// What a waiter at time `now` is handed of a published outcome: a
/// credential only while it is still valid.
pub open spec fn delivered(outcome: Result<BearerBearer, TokenError>, now: int) -> Collected {
    match outcome {
        Ok(b) => if valid_at_spec(b, now) {
            Collected::Settled(Ok(b))
        } else {
            Collected::Stale
        },
        Err(e) => Collected::Settled(Err(e)),
    }
}

/// A waiter of episode `k` takes its outcome at time `now`, if that episode
/// has finished.
pub open spec fn collect_spec(m: CacheView, k: u64, now: int) -> (CacheView, Collected) {
    if m.settled.contains_key(k) {
        let s = m.settled[k];
        let settled = if s.waiters <= 1 {
            m.settled.remove(k)
        } else {
            m.settled.insert(k, Settled { outcome: s.outcome, waiters: (s.waiters - 1) as u64 })
        };
        (CacheView { settled, ..m }, delivered(s.outcome, now))
    } else {
        (m, Collected::Pending)
    }
}

/// Calls of `get` at the given times, one after the other.
pub open spec fn run_gets(m: CacheView, nows: Seq<int>) -> (CacheView, Seq<GetStep>)
    decreases nows.len(),
{
    if nows.len() == 0 {
        (m, Seq::empty())
    } else {
        let (m1, s) = get_spec(m, nows[0]);
        let (m2, rest) = run_gets(m1, nows.drop_first());
        (m2, seq![s] + rest)
    }
}

/// Calls of `collect` for the given episodes at the given times, one after
/// the other.
pub open spec fn run_collects(m: CacheView, ks: Seq<u64>, nows: Seq<int>) -> (CacheView, Seq<Collected>)
    decreases ks.len(),
{
    if ks.len() == 0 {
        (m, Seq::empty())
    } else {
        let (m1, r) = collect_spec(m, ks[0], nows[0]);
        let (m2, rest) = run_collects(m1, ks.drop_first(), nows.drop_first());
        (m2, seq![r] + rest)
    }
}

fn duplicate_outcome(o: &Result<BearerBearer, TokenError>) -> (r: Result<BearerBearer, TokenError>)
    ensures
        r == *o,
{
    match o {
        Ok(b) => Ok(b.duplicate()),
        Err(e) => Err(e.duplicate()),
    }
}

/// A cache of one bearer credential that refreshes it when it is missing or
/// expired, with at most one refresh outstanding at any time.
///
/// The cache only decides; the caller performs the fetch it is asked for and
/// serialises the calls (under a lock, or on one task).
pub struct ExpiringCache {
    state: CacheState,
    episode: u64,
    waiting: u64,
    settled: HashMap<u64, Settled>,
}

impl View for ExpiringCache {
    type V = CacheView;

    closed spec fn view(&self) -> CacheView {
        CacheView {
            state: self.state,
            episode: self.episode,
            waiting: self.waiting,
            settled: self.settled@,
        }
    }
}

impl ExpiringCache {
    /// An empty cache.
    pub fn new() -> (r: ExpiringCache)
        ensures
            r@ == (CacheView { state: CacheState::Empty, episode: 0, waiting: 0, settled: Map::empty() }),
            r@.inv(),
    {
        ExpiringCache { state: CacheState::Empty, episode: 0, waiting: 0, settled: HashMap::new() }
    }

    /// The episode whose refresh is outstanding, if any.
    pub fn in_flight(&self) -> (r: Option<u64>)
        ensures
            r == (if self@.state is Refreshing { Some(self@.episode) } else { None::<u64> }),
    {
        match self.state {
            CacheState::Refreshing => Some(self.episode),
            _ => None,
        }
    }

    /// Whether another call of `get` can be made.
    pub fn has_room(&self) -> (r: bool)
        ensures
            r == self@.has_room(),
    {
        self.episode < u64::MAX && self.waiting < u64::MAX
    }

    /// Asks for a credential at time `now`.
    pub fn get(&mut self, now: i64) -> (r: GetStep)
        requires
            old(self)@.has_room(),
        ensures
            (final(self)@, r) == get_spec(old(self)@, now as int),
            old(self)@.inv() ==> final(self)@.inv(),
    {
        let mut serve: Option<BearerBearer> = None;
        match &self.state {
            CacheState::Valid(b) => {
                if b.valid_at(now) {
                    serve = Some(b.duplicate());
                }
            },
            CacheState::Refreshing => {
                self.waiting = self.waiting + 1;
                return GetStep::Wait(self.episode);
            },
            CacheState::Empty => {},
        }
        match serve {
            Some(b) => GetStep::Ready(b),
            None => {
                self.episode = self.episode + 1;
                self.state = CacheState::Refreshing;
                self.waiting = 0;
                GetStep::Refresh(self.episode)
            },
        }
    }

    /// Reports the outcome of the outstanding refresh `episode`, fetched by
    /// the caller that was told to refresh, and returns what it publishes.
    pub fn finish_refresh(
        &mut self,
        episode: u64,
        outcome: Result<BearerBearer, TokenError>,
        now: i64,
    ) -> (r: Result<BearerBearer, TokenError>)
        requires
            old(self)@.state is Refreshing,
            episode == old(self)@.episode,
        ensures
            (final(self)@, r) == finish_spec(old(self)@, outcome, now as int),
            old(self)@.inv() ==> final(self)@.inv(),
    {
        let published = match outcome {
            Ok(b) => if b.valid_at(now) {
                Ok(b)
            } else {
                Err(TokenError::Expired)
            },
            Err(e) => Err(e),
        };
        match &published {
            Ok(b) => {
                self.state = CacheState::Valid(b.duplicate());
            },
            Err(_) => {
                self.state = CacheState::Empty;
            },
        }
        if self.waiting > 0 {
            let kept = duplicate_outcome(&published);
            self.settled.insert(episode, Settled { outcome: kept, waiters: self.waiting });
        }
        self.waiting = 0;
        published
    }

    /// A caller that was told to wait on `episode` takes its outcome at time
    /// `now`, once that episode has finished.
    pub fn collect(&mut self, episode: u64, now: i64) -> (r: Collected)
        ensures
            (final(self)@, r) == collect_spec(old(self)@, episode, now as int),
            old(self)@.inv() ==> final(self)@.inv(),
    {
        let ghost m0 = self.settled@;
        match self.settled.remove(&episode) {
            Some(s) => {
                if s.waiters > 1 {
                    let kept = duplicate_outcome(&s.outcome);
                    self.settled.insert(episode, Settled { outcome: kept, waiters: s.waiters - 1 });
                    assert(self.settled@ =~= m0.insert(
                        episode,
                        Settled { outcome: s.outcome, waiters: (s.waiters - 1) as u64 },
                    ));
                }
                match s.outcome {
                    Ok(b) => if b.valid_at(now) {
                        Collected::Settled(Ok(b))
                    } else {
                        Collected::Stale
                    },
                    Err(e) => Collected::Settled(Err(e)),
                }
            },
            None => {
                assert(self.settled@ =~= m0);
                Collected::Pending
            },
        }
    }
}

proof fn lemma_gets_while_refreshing(m: CacheView, nows: Seq<int>)
    requires
        m.state is Refreshing,
        m.waiting + nows.len() <= u64::MAX,
    ensures
        run_gets(m, nows).1.len() == nows.len(),
        forall|i: int| 0 <= i < nows.len() ==> #[trigger] run_gets(m, nows).1[i] == GetStep::Wait(m.episode),
        run_gets(m, nows).0 == (CacheView { waiting: (m.waiting + nows.len()) as u64, ..m }),
    decreases nows.len(),
{
    if nows.len() > 0 {
        let m1 = get_spec(m, nows[0]).0;
        lemma_gets_while_refreshing(m1, nows.drop_first());
        let rest = run_gets(m1, nows.drop_first()).1;
        assert forall|i: int| 0 <= i < nows.len() implies #[trigger] run_gets(m, nows).1[i] == GetStep::Wait(m.episode) by {
            if i > 0 {
                assert(run_gets(m, nows).1[i] == rest[i - 1]);
            }
        }
    }
}

/// Single flight: when no valid credential is cached and no refresh is
/// outstanding, any number of calls of `get` made before the refresh finishes
/// start exactly one refresh episode, the first call's; every later call
/// waits on that same episode.
pub proof fn lemma_single_flight(m: CacheView, nows: Seq<int>)
    requires
        !(m.state is Refreshing),
        m.state matches CacheState::Valid(b) ==> !valid_at_spec(b, nows[0]),
        m.episode < u64::MAX,
        1 <= nows.len() <= u64::MAX,
    ensures
        ({
            let (m2, steps) = run_gets(m, nows);
            let k = (m.episode + 1) as u64;
            &&& steps.len() == nows.len()
            &&& steps[0] == GetStep::Refresh(k)
            &&& forall|i: int| 1 <= i < steps.len() ==> #[trigger] steps[i] == GetStep::Wait(k)
            &&& m2.state is Refreshing
            &&& m2.episode == k
            &&& m2.waiting == nows.len() - 1
            &&& m2.settled == m.settled
        }),
{
    let (m1, s0) = get_spec(m, nows[0]);
    assert(s0 == GetStep::Refresh((m.episode + 1) as u64));
    lemma_gets_while_refreshing(m1, nows.drop_first());
    let steps = run_gets(m, nows).1;
    let rest = run_gets(m1, nows.drop_first()).1;
    assert forall|i: int| 1 <= i < steps.len() implies #[trigger] steps[i] == GetStep::Wait((m.episode + 1) as u64) by {
        assert(steps[i] == rest[i - 1]);
    }
}

proof fn lemma_collects_of_settled(m: CacheView, k: u64, ks: Seq<u64>, nows: Seq<int>)
    requires
        m.settled.contains_key(k),
        ks.len() <= m.settled[k].waiters,
        nows.len() == ks.len(),
        forall|i: int| 0 <= i < ks.len() ==> #[trigger] ks[i] == k,
    ensures
        run_collects(m, ks, nows).1.len() == ks.len(),
        forall|i: int| 0 <= i < ks.len() ==> #[trigger] run_collects(m, ks, nows).1[i] == delivered(
            m.settled[k].outcome,
            nows[i],
        ),
    decreases ks.len(),
{
    if ks.len() > 0 {
        let m1 = collect_spec(m, k, nows[0]).0;
        let rest = run_collects(m1, ks.drop_first(), nows.drop_first()).1;
        if m.settled[k].waiters > 1 {
            lemma_collects_of_settled(m1, k, ks.drop_first(), nows.drop_first());
        }
        assert forall|i: int| 0 <= i < ks.len() implies #[trigger] run_collects(m, ks, nows).1[i]
            == delivered(m.settled[k].outcome, nows[i]) by {
            if i > 0 {
                assert(run_collects(m, ks, nows).1[i] == rest[i - 1]);
                assert(nows.drop_first()[i - 1] == nows[i]);
            }
        }
    }
}

/// Shared outcome: every caller that waited on the outstanding episode takes
/// exactly what the refresher was handed when it reported the refresh,
/// whether a credential or an error; the only exception is a credential that
/// has expired by the time a waiter takes it, which that waiter is told is
/// stale instead.
pub proof fn lemma_waiters_share_outcome(
    m: CacheView,
    outcome: Result<BearerBearer, TokenError>,
    now: int,
    ks: Seq<u64>,
    nows: Seq<int>,
)
    requires
        m.state is Refreshing,
        ks.len() <= m.waiting,
        nows.len() == ks.len(),
        forall|i: int| 0 <= i < ks.len() ==> #[trigger] ks[i] == m.episode,
    ensures
        ({
            let (m1, p) = finish_spec(m, outcome, now);
            let rs = run_collects(m1, ks, nows).1;
            &&& rs.len() == ks.len()
            &&& forall|i: int| 0 <= i < ks.len() ==> #[trigger] rs[i] == delivered(p, nows[i])
        }),
{
    let (m1, p) = finish_spec(m, outcome, now);
    if ks.len() > 0 {
        assert(m1.settled.contains_key(m.episode) && m1.settled[m.episode].outcome == p);
        lemma_collects_of_settled(m1, m.episode, ks, nows);
    }
}

/// No stale serving: `get` hands out a cached credential only while it is
/// valid and starts a refresh once it has expired, a refresh never publishes
/// a credential that is no longer valid, and a waiter is never handed one
/// that has expired by the time it takes it.
pub proof fn lemma_no_stale_serving(
    m: CacheView,
    outcome: Result<BearerBearer, TokenError>,
    k: u64,
    now: int,
)
    ensures
        collect_spec(m, k, now).1 matches Collected::Settled(Ok(b)) ==> valid_at_spec(b, now),
        get_spec(m, now).1 matches GetStep::Ready(b) ==> valid_at_spec(b, now),
        m.state matches CacheState::Valid(b) ==> (!valid_at_spec(b, now) ==> get_spec(m, now).1
            == GetStep::Refresh((m.episode + 1) as u64)),
        finish_spec(m, outcome, now).1 matches Ok(b) ==> valid_at_spec(b, now),
{
}

/// A failed refresh is not cached: it empties the slot, and the next call of
/// `get`, whenever it comes, starts a new refresh episode.
pub proof fn lemma_failure_not_cached(m: CacheView, e: TokenError, now1: int, now2: int)
    requires
        m.state is Refreshing,
        m.episode < u64::MAX,
    ensures
        finish_spec(m, Err(e), now1).0.state is Empty,
        get_spec(finish_spec(m, Err(e), now1).0, now2).1 == GetStep::Refresh((m.episode + 1) as u64),
{
}

} // verus!
