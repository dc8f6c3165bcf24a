//! The content freshness cache: serves the reference text cheaply, refreshes
//! it at most once per interval, and keeps serving the last good text when a
//! refresh fails.
//!
//! One refresh decision is one call of [`ContentCache::get_or_refresh`] (or
//! of [`ContentCache::begin_refresh`] followed by [`ContentCache::settle`]).
//! Shared callers hold the cache behind one lock for the whole decision, so
//! that callers within one interval cannot both fetch.

use vstd::prelude::*;

use crate::content::{default_view, Content, ContentView, FetchError};

verus! {

/// Seconds after a refresh attempt during which no new attempt is made.
pub const REFRESH_INTERVAL: i64 = 3600;

/// The last good content and the time of the last refresh attempt.
pub struct ContentCache {
    last_refresh_attempt: i64,
    cached: Content,
}

/// Mathematical model of a [`ContentCache`].
pub struct CacheView {
    /// Epoch seconds of the last refresh attempt; zero means never.
    pub last_refresh_attempt: int,
    pub cached: ContentView,
}

/// What a fetch gave: the content, or nothing on failure.
pub open spec fn outcome_view(o: Result<Content, FetchError>) -> Option<ContentView> {
    match o {
        Ok(c) => Some(c@),
        Err(_) => None,
    }
}

impl CacheView {
    /// A refresh is due: never attempted, or the last attempt is more than
    /// one interval before `now`.
    pub open spec fn is_stale(self, now: int) -> bool {
        self.last_refresh_attempt == 0 || now - self.last_refresh_attempt > REFRESH_INTERVAL
    }

    /// The state once a refresh decision at `now` is taken: the attempt time
    /// moves to `now` when a refresh is due, before any fetch completes.
    pub open spec fn begun(self, now: int) -> CacheView {
        if self.is_stale(now) {
            CacheView { last_refresh_attempt: now, ..self }
        } else {
            self
        }
    }

    /// The state once a fetch has ended: a fetched content is normalized and
    /// stored; on failure the last good content stays and the attempt time
    /// is kept.
    pub open spec fn settled(self, outcome: Option<ContentView>) -> CacheView {
        match outcome {
            Some(c) => CacheView { cached: c.normalized(), ..self },
            None => self,
        }
    }

    /// The state after one call at `now`, where `outcome` is what the fetch
    /// gives if one is made.
    pub open spec fn after_call(self, now: int, outcome: Option<ContentView>) -> CacheView {
        if self.is_stale(now) {
            self.begun(now).settled(outcome)
        } else {
            self
        }
    }
}

impl View for ContentCache {
    type V = CacheView;

    closed spec fn view(&self) -> CacheView {
        CacheView {
            last_refresh_attempt: self.last_refresh_attempt as int,
            cached: self.cached@,
        }
    }
}

impl ContentCache {
    /// A cache that has never refreshed and serves the built-in content.
    pub fn new() -> (r: ContentCache)
        ensures
            r@.last_refresh_attempt == 0,
            r@.cached == default_view(),
    {
        ContentCache { last_refresh_attempt: 0, cached: Content::builtin() }
    }

    /// Epoch seconds of the last refresh attempt, zero if none was made.
    pub fn last_refresh_attempt(&self) -> (r: i64)
        ensures
            r as int == self@.last_refresh_attempt,
    {
        self.last_refresh_attempt
    }

    /// The content served now.
    pub fn cached(&self) -> (r: &Content)
        ensures
            r@ == self@.cached,
    {
        &self.cached
    }

    /// Whether a call at `now` refreshes.
    pub fn is_stale(&self, now: i64) -> (r: bool)
        ensures
            r == self@.is_stale(now as int),
    {
        self.last_refresh_attempt == 0 || (now as i128) - (self.last_refresh_attempt as i128)
            > REFRESH_INTERVAL as i128
    }

    /// Takes the refresh decision at `now`. Returns whether a fetch is due; if
    /// so, the attempt time is already set to `now`, and the caller fetches
    /// and hands the outcome to [`ContentCache::settle`].
    pub fn begin_refresh(&mut self, now: i64) -> (fetch: bool)
        ensures
            fetch == old(self)@.is_stale(now as int),
            final(self)@ == old(self)@.begun(now as int),
    {
        let fetch = self.is_stale(now);
        if fetch {
            self.last_refresh_attempt = now;
        }
        fetch
    }

    /// Records the outcome of a fetch and returns the content to serve: the
    /// fetched content, normalized, or on failure the last good content.
    pub fn settle(&mut self, outcome: Result<Content, FetchError>) -> (r: Content)
        ensures
            final(self)@ == old(self)@.settled(outcome_view(outcome)),
            r@ == final(self)@.cached,
    {
        match outcome {
            Ok(c) => {
                self.cached = c.normalized();
            },
            Err(_) => {},
        }
        self.cached.duplicate()
    }

    /// Returns the content to serve at `now`, calling `fetch` once if a
    /// refresh is due and not at all otherwise. A failed fetch leaves the last
    /// good content in place and still counts as an attempt.
    pub fn get_or_refresh<F: FnOnce() -> Result<Content, FetchError>>(
        &mut self,
        now: i64,
        fetch: F,
    ) -> (r: Content)
        requires
            call_requires(fetch, ()),
        ensures
            !old(self)@.is_stale(now as int) ==> final(self)@ == old(self)@,
            old(self)@.is_stale(now as int) ==> exists|o: Result<Content, FetchError>|
                call_ensures(fetch, (), o) && final(self)@ == old(self)@.after_call(
                    now as int,
                    outcome_view(o),
                ),
            r@ == final(self)@.cached,
    {
        if self.begin_refresh(now) {
            let outcome = fetch();
            self.settle(outcome)
        } else {
            self.cached.duplicate()
        }
    }
}

/// Two calls within one interval serve the same content, and the second
/// makes no fetch, provided the first call made the refresh decision itself
/// or the second still falls within the interval of the earlier attempt.
/// Time zero is reserved for "never attempted".
pub proof fn lemma_calls_within_interval_agree(
    c: CacheView,
    now1: int,
    now2: int,
    outcome1: Option<ContentView>,
    outcome2: Option<ContentView>,
)
    requires
        0 < now1 <= now2,
        now2 - now1 <= REFRESH_INTERVAL,
        c.is_stale(now1) || now2 - c.last_refresh_attempt <= REFRESH_INTERVAL,
    ensures
        !c.after_call(now1, outcome1).is_stale(now2),
        c.after_call(now1, outcome1).after_call(now2, outcome2) == c.after_call(now1, outcome1),
{
}

/// After a failed refresh at `now`, the content served is the one held
/// before, and the next refresh comes only once a full interval has passed
/// since `now`.
pub proof fn lemma_failed_refresh_defers(c: CacheView, now: int, later: int)
    requires
        now != 0,
        c.is_stale(now),
    ensures
        c.after_call(now, None).cached == c.cached,
        c.after_call(now, None).last_refresh_attempt == now,
        c.after_call(now, None).is_stale(later) <==> later - now > REFRESH_INTERVAL,
{
}

} // verus!
