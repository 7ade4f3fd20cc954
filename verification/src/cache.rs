//! A value cached for a limited time.

use vstd::prelude::*;
use crate::time::now_millis;

verus! {

/// Whole seconds in `ms` milliseconds, rounded toward zero (as
/// `TimeDelta::num_seconds` counts them).
pub open spec fn whole_seconds(ms: int) -> int {
    if ms >= 0 {
        ms / 1000
    } else {
        -((-ms) / 1000)
    }
}

/// A cached value, valid for `ttl` seconds after it was stored.
pub struct CacheService<T> {
    data: Option<T>,
    last_refresh: Option<i64>,
    ttl_secs: u64,
}

impl<T> CacheService<T> {
    /// A value is cached exactly when it has a refresh time.
    #[verifier::type_invariant]
    spec fn inv(&self) -> bool {
        self.data is Some == self.last_refresh is Some
    }

    /// The cached value, if any.
    pub closed spec fn value(&self) -> Option<T> {
        self.data
    }

    /// When the value was stored, in milliseconds since the epoch.
    pub closed spec fn stored_at(&self) -> Option<i64> {
        self.last_refresh
    }

    /// How long a value stays valid, in seconds.
    pub closed spec fn ttl(&self) -> u64 {
        self.ttl_secs
    }

    /// Whether the cache is valid at `now` (milliseconds since the epoch): a
    /// value was stored fewer whole seconds ago than the time to live (read
    /// as an `i64`).
    pub open spec fn valid_at(&self, now: i64) -> bool {
        match self.stored_at() {
            Some(last) => whole_seconds(now - last) < self.ttl() as i64,
            None => false,
        }
    }

    /// An empty cache whose values live `ttl_secs` seconds.
    pub fn new(ttl_secs: u64) -> (c: Self)
        ensures
            c.value() is None,
            c.stored_at() is None,
            c.ttl() == ttl_secs,
    {
        CacheService { data: None, last_refresh: None, ttl_secs }
    }

    /// Whether the cache is valid at `now` (milliseconds since the epoch).
    pub fn is_valid_at(&self, now: i64) -> (b: bool)
        ensures
            b == self.valid_at(now),
    {
        match self.last_refresh {
            Some(last) => {
                let e: i128 = now as i128 - last as i128;
                let secs: i128 = if e >= 0 {
                    e / 1000
                } else {
                    -((-e) / 1000)
                };
                secs < (self.ttl_secs as i64) as i128
            },
            None => false,
        }
    }

    /// Whether the cache is valid now: valid at the clock's reading, whatever
    /// it is; never without a stored value.
    pub fn is_valid(&self) -> (b: bool)
        ensures
            exists|now: i64| b == #[trigger] self.valid_at(now),
            self.stored_at() is None ==> !b,
    {
        let now = now_millis();
        let b = self.is_valid_at(now);
        assert(b == self.valid_at(now));
        b
    }

    /// Stores `data` as refreshed at `now`.
    pub fn set_at(&mut self, data: T, now: i64)
        ensures
            final(self).value() == Some(data),
            final(self).stored_at() == Some(now),
            final(self).ttl() == old(self).ttl(),
    {
        let ttl_secs = self.ttl_secs;
        *self = CacheService { data: Some(data), last_refresh: Some(now), ttl_secs };
    }

    /// Stores `data` as refreshed now.
    pub fn set(&mut self, data: T)
        ensures
            final(self).value() == Some(data),
            final(self).stored_at() is Some,
            final(self).ttl() == old(self).ttl(),
    {
        let now = now_millis();
        self.set_at(data, now);
    }

    /// The cached value, valid or not. A value is cached exactly when a
    /// refresh time is recorded.
    pub fn get(&self) -> (r: Option<&T>)
        ensures
            match r {
                Some(v) => self.value() == Some(*v),
                None => self.value() is None,
            },
            self.value() is Some <==> self.stored_at() is Some,
    {
        proof {
            use_type_invariant(self);
        }
        match &self.data {
            Some(v) => Some(v),
            None => None,
        }
    }

    /// Drops the cached value.
    pub fn invalidate(&mut self)
        ensures
            final(self).value() is None,
            final(self).stored_at() is None,
            final(self).ttl() == old(self).ttl(),
    {
        let ttl_secs = self.ttl_secs;
        *self = CacheService { data: None, last_refresh: None, ttl_secs };
    }

    /// The cached value if valid at `now`; otherwise `fetch` gives a new one,
    /// which is stored as refreshed at `now` (a failed fetch leaves the cache
    /// as it was).
    pub fn get_or_refresh_at<F: FnOnce() -> Result<T, String>>(&mut self, now: i64, fetch: F) -> (r:
        Result<&T, String>)
        requires
            call_requires(fetch, ()),
        ensures
            old(self).valid_at(now) ==> (*final(self) == *old(self) && (r matches Ok(v) && old(
                self,
            ).value() == Some(*v))),
            !old(self).valid_at(now) ==> match r {
                Ok(v) => final(self).value() == Some(*v) && final(self).stored_at() == Some(now)
                    && final(self).ttl() == old(self).ttl() && call_ensures(fetch, (), Ok(*v)),
                Err(e) => *final(self) == *old(self) && call_ensures(fetch, (), Err(e)),
            },
            old(self).value() is Some <==> old(self).stored_at() is Some,
            final(self).value() is Some <==> final(self).stored_at() is Some,
    {
        proof {
            use_type_invariant(&*self);
        }
        if !self.is_valid_at(now) {
            match fetch() {
                Ok(data) => self.set_at(data, now),
                Err(e) => return Err(e),
            }
        }
        match &self.data {
            Some(v) => Ok(v),
            None => Err(String::new()),
        }
    }
}

impl<T> Default for CacheService<T> {
    fn default() -> (c: Self)
        ensures
            c.value() is None,
            c.stored_at() is None,
            c.ttl() == 5,
    {
        Self::new(5)
    }
}

/// A value stored at `now` is valid at `now` exactly when the time to live is
/// positive, valid while fewer than that many seconds have passed, and no
/// longer valid once they have (times in milliseconds).
pub proof fn lemma_valid_after_set<T>(c: CacheService<T>, now: i64, later: i64)
    requires
        c.stored_at() == Some(now),
        0 <= c.ttl() <= i64::MAX,
    ensures
        c.valid_at(now) == (c.ttl() > 0),
        later - now >= 1000 * c.ttl() ==> !c.valid_at(later),
        now <= later < now + 1000 * c.ttl() ==> c.valid_at(later),
{
    let t = c.ttl() as int;
    let d = later - now;
    assert(c.ttl() as i64 == t);
    if d >= 1000 * t {
        assert(d / 1000 >= t) by (nonlinear_arith)
            requires
                d >= 1000 * t,
        ;
    }
    if 0 <= d < 1000 * t {
        assert(d / 1000 < t) by (nonlinear_arith)
            requires
                0 <= d < 1000 * t,
        ;
    }
}

/// An invalidated cache is valid at no time.
pub proof fn lemma_invalid_after_invalidate<T>(c: CacheService<T>, now: i64)
    requires
        c.stored_at() is None,
    ensures
        !c.valid_at(now),
{
}

} // verus!
