//! Per-view state: refresh flags and cached data.

use vstd::prelude::*;
use std::sync::Arc;
use crate::cache::CacheService;
use crate::chart_data::{totals_fit, usages_total};
use crate::models::{AppUsage, DashboardData, TimeNavigationState};

verus! {

/// The application's state: the data service and whether views need a refresh.
pub struct AppStore<D> {
    /// The data service.
    pub data: Arc<D>,
    needs_refresh: bool,
}

impl<D> AppStore<D> {
    /// The data service.
    pub closed spec fn service(&self) -> Arc<D> {
        self.data
    }

    /// Whether the views need a refresh.
    pub closed spec fn dirty(&self) -> bool {
        self.needs_refresh
    }

    /// A store over `data`, needing a refresh.
    pub fn new(data: Arc<D>) -> (s: Self)
        ensures
            s.dirty(),
            s.service() == data,
    {
        AppStore { data, needs_refresh: true }
    }

    /// Marks the views as needing a refresh.
    pub fn mark_dirty(&mut self)
        ensures
            final(self).dirty(),
            final(self).service() == old(self).service(),
    {
        self.needs_refresh = true;
    }

    /// Whether the views need a refresh.
    pub fn is_dirty(&self) -> (b: bool)
        ensures
            b == self.dirty(),
    {
        self.needs_refresh
    }

    /// Marks the views as refreshed.
    pub fn mark_clean(&mut self)
        ensures
            !final(self).dirty(),
            final(self).service() == old(self).service(),
    {
        self.needs_refresh = false;
    }

    /// The data service.
    pub fn data_service(&self) -> (d: &D)
        ensures
            *d == *self.service(),
    {
        &self.data
    }
}

/// The number of named applications among the first `i`.
pub open spec fn named_count(us: Seq<AppUsage>, i: int) -> int
    decreases i,
{
    if i <= 0 {
        0
    } else {
        named_count(us, i - 1) + if us[i - 1].app_name@.len() > 0 {
            1int
        } else {
            0
        }
    }
}

/// The dashboard's state: its data, cached for five seconds.
pub struct DashboardStore<D> {
    data_service: Arc<D>,
    cache: CacheService<DashboardData>,
}

impl<D> DashboardStore<D> {
    /// The cached data.
    pub closed spec fn cached(&self) -> Option<DashboardData> {
        self.cache.value()
    }

    /// The cache, with its data and refresh time.
    pub closed spec fn cache_state(&self) -> CacheService<DashboardData> {
        self.cache
    }

    /// A store over `data_service` with nothing cached; data stays valid for
    /// five seconds.
    pub fn new(data_service: Arc<D>) -> (s: Self)
        ensures
            s.cached() is None,
            s.cache_state().stored_at() is None,
            s.cache_state().ttl() == 5,
    {
        DashboardStore { data_service, cache: CacheService::new(5) }
    }

    /// The cached data if fetched within the last five seconds before `now`;
    /// otherwise `fetch` gives it anew (see [`CacheService::get_or_refresh_at`]).
    pub fn get_data_at<F: FnOnce() -> Result<DashboardData, String>>(&mut self, now: i64, fetch: F) -> (r:
        Result<&DashboardData, String>)
        requires
            call_requires(fetch, ()),
        ensures
            old(self).cache_state().valid_at(now) ==> (final(self).cache_state() == old(self).cache_state() && (r matches Ok(
                v,
            ) && old(self).cached() == Some(*v))),
            !old(self).cache_state().valid_at(now) ==> match r {
                Ok(v) => final(self).cached() == Some(*v) && final(self).cache_state().stored_at() == Some(now)
                    && final(self).cache_state().ttl() == old(self).cache_state().ttl() && call_ensures(fetch, (), Ok(*v)),
                Err(e) => final(self).cache_state() == old(self).cache_state() && call_ensures(fetch, (), Err(e)),
            },
    {
        self.cache.get_or_refresh_at(now, fetch)
    }

    /// Drops the cached data and fetches it anew at `now` with `fetch`; on a
    /// failed fetch nothing stays cached.
    pub fn refresh_at<F: FnOnce() -> Result<DashboardData, String>>(&mut self, now: i64, fetch: F) -> (r: Result<
        (),
        String,
    >)
        requires
            call_requires(fetch, ()),
        ensures
            final(self).cache_state().ttl() == old(self).cache_state().ttl(),
            match r {
                Ok(_) => final(self).cache_state().stored_at() == Some(now) && (final(self).cached() matches Some(
                    v,
                ) && call_ensures(fetch, (), Ok(v))),
                Err(e) => final(self).cached() is None && final(self).cache_state().stored_at() is None
                    && call_ensures(fetch, (), Err(e)),
            },
    {
        self.cache.invalidate();
        match self.cache.get_or_refresh_at(now, fetch) {
            Ok(_) => Ok(()),
            Err(e) => Err(e),
        }
    }

    /// Caches `data` as fetched at `now`.
    pub fn store(&mut self, data: DashboardData, now: i64)
        ensures
            final(self).cached() == Some(data),
            final(self).cache_state().stored_at() == Some(now),
            final(self).cache_state().ttl() == old(self).cache_state().ttl(),
    {
        self.cache.set_at(data, now);
    }

    /// Drops the cached data.
    pub fn invalidate(&mut self)
        ensures
            final(self).cached() is None,
            final(self).cache_state().stored_at() is None,
            final(self).cache_state().ttl() == old(self).cache_state().ttl(),
    {
        self.cache.invalidate();
    }

    /// The total seconds of the cached applications, 0 with nothing cached.
    pub fn get_total_seconds(&self) -> (t: i64)
        requires
            self.cached() matches Some(d) ==> totals_fit(d.app_usage@),
        ensures
            t == match self.cached() {
                Some(d) => usages_total(d.app_usage@, d.app_usage@.len() as int),
                None => 0,
            },
    {
        match self.cache.get() {
            None => 0,
            Some(d) => {
                let mut t: i64 = 0;
                let mut i: usize = 0;
                while i < d.app_usage.len()
                    invariant
                        i <= d.app_usage@.len(),
                        totals_fit(d.app_usage@),
                        t == usages_total(d.app_usage@, i as int),
                    decreases d.app_usage@.len() - i,
                {
                    assert(i64::MIN <= usages_total(d.app_usage@, i + 1) <= i64::MAX);
                    t = t + d.app_usage[i].total_seconds;
                    i = i + 1;
                }
                t
            },
        }
    }

    /// The number of named cached applications, 0 with nothing cached.
    pub fn get_app_count(&self) -> (n: usize)
        ensures
            n == match self.cached() {
                Some(d) => named_count(d.app_usage@, d.app_usage@.len() as int),
                None => 0,
            },
    {
        match self.cache.get() {
            None => 0,
            Some(d) => {
                let mut n: usize = 0;
                let mut i: usize = 0;
                while i < d.app_usage.len()
                    invariant
                        i <= d.app_usage@.len(),
                        n == named_count(d.app_usage@, i as int),
                        n <= i,
                    decreases d.app_usage@.len() - i,
                {
                    if !d.app_usage[i].app_name.as_str().is_empty() {
                        n = n + 1;
                    }
                    i = i + 1;
                }
                n
            },
        }
    }
}

/// The statistics view's state: the time navigation and its data, cached
/// for five seconds.
pub struct StatsStore<D, T> {
    data_service: Arc<D>,
    cache: CacheService<T>,
    /// Where the time navigation stands.
    pub time_state: TimeNavigationState,
}

impl<D, T> StatsStore<D, T> {
    /// Where the time navigation stands.
    pub closed spec fn nav(&self) -> TimeNavigationState {
        self.time_state
    }

    /// The cached data.
    pub closed spec fn cached(&self) -> Option<T> {
        self.cache.value()
    }

    /// The cache, with its data and refresh time.
    pub closed spec fn cache_state(&self) -> CacheService<T> {
        self.cache
    }

    /// A store over `data_service` at the months of `current_year`, with
    /// nothing cached.
    pub fn new(data_service: Arc<D>, current_year: i32) -> (s: Self)
        ensures
            s.cached() is None,
            s.cache_state().stored_at() is None,
            s.cache_state().ttl() == 5,
            s.nav() == TimeNavigationState::new_spec(current_year),
    {
        StatsStore { data_service, cache: CacheService::new(5), time_state: TimeNavigationState::new(current_year) }
    }

    /// The cached data if fetched within the last five seconds before `now`;
    /// otherwise `fetch` gives it anew (see [`CacheService::get_or_refresh_at`]).
    pub fn get_data_at<F: FnOnce() -> Result<T, String>>(&mut self, now: i64, fetch: F) -> (r: Result<
        &T,
        String,
    >)
        requires
            call_requires(fetch, ()),
        ensures
            final(self).nav() == old(self).nav(),
            old(self).cache_state().valid_at(now) ==> (final(self).cache_state() == old(self).cache_state() && (r matches Ok(
                v,
            ) && old(self).cached() == Some(*v))),
            !old(self).cache_state().valid_at(now) ==> match r {
                Ok(v) => final(self).cached() == Some(*v) && final(self).cache_state().stored_at() == Some(now)
                    && final(self).cache_state().ttl() == old(self).cache_state().ttl() && call_ensures(fetch, (), Ok(*v)),
                Err(e) => final(self).cache_state() == old(self).cache_state() && call_ensures(fetch, (), Err(e)),
            },
    {
        self.cache.get_or_refresh_at(now, fetch)
    }

    /// Drops the cached data and fetches it anew at `now` with `fetch`; on a
    /// failed fetch nothing stays cached.
    pub fn refresh_at<F: FnOnce() -> Result<T, String>>(&mut self, now: i64, fetch: F) -> (r: Result<(), String>)
        requires
            call_requires(fetch, ()),
        ensures
            final(self).nav() == old(self).nav(),
            final(self).cache_state().ttl() == old(self).cache_state().ttl(),
            match r {
                Ok(_) => final(self).cache_state().stored_at() == Some(now) && (final(self).cached() matches Some(
                    v,
                ) && call_ensures(fetch, (), Ok(v))),
                Err(e) => final(self).cached() is None && final(self).cache_state().stored_at() is None
                    && call_ensures(fetch, (), Err(e)),
            },
    {
        self.cache.invalidate();
        match self.cache.get_or_refresh_at(now, fetch) {
            Ok(_) => Ok(()),
            Err(e) => Err(e),
        }
    }

    /// Drops the cached data.
    pub fn invalidate(&mut self)
        ensures
            final(self).cached() is None,
            final(self).nav() == old(self).nav(),
            final(self).cache_state().stored_at() is None,
            final(self).cache_state().ttl() == old(self).cache_state().ttl(),
    {
        self.cache.invalidate();
    }

    /// Moves the time navigation; the cached data is dropped when it moves,
    /// and the cache is left as it was when it does not.
    pub fn set_time_state(&mut self, state: TimeNavigationState)
        ensures
            final(self).nav() == state,
            final(self).cached() == if state == old(self).nav() {
                old(self).cached()
            } else {
                None
            },
            state == old(self).nav() ==> final(self).cache_state() == old(self).cache_state(),
            state != old(self).nav() ==> final(self).cache_state().stored_at() is None
                && final(self).cache_state().ttl() == old(self).cache_state().ttl(),
    {
        if self.time_state != state {
            self.time_state = state;
            self.cache.invalidate();
        }
    }
}

/// The categories page's state: its data, cached for ten seconds.
pub struct CategoryStore<D, T> {
    data_service: Arc<D>,
    cache: CacheService<T>,
}

impl<D, T> CategoryStore<D, T> {
    /// The cached data.
    pub closed spec fn cached(&self) -> Option<T> {
        self.cache.value()
    }

    /// The cache, with its data and refresh time.
    pub closed spec fn cache_state(&self) -> CacheService<T> {
        self.cache
    }

    /// A store over `data_service` with nothing cached; data stays valid for
    /// ten seconds.
    pub fn new(data_service: Arc<D>) -> (s: Self)
        ensures
            s.cached() is None,
            s.cache_state().stored_at() is None,
            s.cache_state().ttl() == 10,
    {
        CategoryStore { data_service, cache: CacheService::new(10) }
    }

    /// The cached data if fetched within the last ten seconds before `now`;
    /// otherwise `fetch` (today's data, from the local midnight to the clock
    /// reading) gives it anew (see [`CacheService::get_or_refresh_at`]).
    pub fn get_data_at<F: FnOnce() -> Result<T, String>>(&mut self, now: i64, fetch: F) -> (r: Result<
        &T,
        String,
    >)
        requires
            call_requires(fetch, ()),
        ensures
            old(self).cache_state().valid_at(now) ==> (final(self).cache_state() == old(self).cache_state() && (r matches Ok(
                v,
            ) && old(self).cached() == Some(*v))),
            !old(self).cache_state().valid_at(now) ==> match r {
                Ok(v) => final(self).cached() == Some(*v) && final(self).cache_state().stored_at() == Some(now)
                    && final(self).cache_state().ttl() == old(self).cache_state().ttl() && call_ensures(fetch, (), Ok(*v)),
                Err(e) => final(self).cache_state() == old(self).cache_state() && call_ensures(fetch, (), Err(e)),
            },
    {
        self.cache.get_or_refresh_at(now, fetch)
    }

    /// Drops the cached data and fetches it anew at `now` with `fetch`; on a
    /// failed fetch nothing stays cached.
    pub fn refresh_at<F: FnOnce() -> Result<T, String>>(&mut self, now: i64, fetch: F) -> (r: Result<(), String>)
        requires
            call_requires(fetch, ()),
        ensures
            final(self).cache_state().ttl() == old(self).cache_state().ttl(),
            match r {
                Ok(_) => final(self).cache_state().stored_at() == Some(now) && (final(self).cached() matches Some(
                    v,
                ) && call_ensures(fetch, (), Ok(v))),
                Err(e) => final(self).cached() is None && final(self).cache_state().stored_at() is None
                    && call_ensures(fetch, (), Err(e)),
            },
    {
        self.cache.invalidate();
        match self.cache.get_or_refresh_at(now, fetch) {
            Ok(_) => Ok(()),
            Err(e) => Err(e),
        }
    }

    /// Drops the cached data.
    pub fn invalidate(&mut self)
        ensures
            final(self).cached() is None,
            final(self).cache_state().stored_at() is None,
            final(self).cache_state().ttl() == old(self).cache_state().ttl(),
    {
        self.cache.invalidate();
    }
}

} // verus!
