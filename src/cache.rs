//! The cache node's freshness rule: a stored feed is served again until its
//! time to live has passed.
use vstd::prelude::*;

use crate::feed::{Feed, FeedModel};

verus! {

pub struct CacheModel {
    /// Time to live, in seconds.
    pub ttl: u64,
    pub last: Option<FeedModel>,
    /// When `last` was stored, in milliseconds of monotonic time.
    pub inserted_at: u64,
}

/// The state of one cache node: the last feed its child produced and when.
pub struct CacheState {
    ttl: u64,
    last: Option<Feed>,
    inserted_at: u64,
}

impl View for CacheState {
    type V = CacheModel;

    closed spec fn view(&self) -> CacheModel {
        CacheModel {
            ttl: self.ttl,
            last: match self.last {
                Some(f) => Some(f@),
                None => None,
            },
            inserted_at: self.inserted_at,
        }
    }
}

/// Milliseconds from `from` to `now`; a clock that went back counts as no
/// time at all.
pub open spec fn elapsed(from: u64, now: u64) -> int {
    if now <= from {
        0
    } else {
        now - from
    }
}

/// The stored feed may be served at time `now`.
pub open spec fn fresh(c: CacheModel, now: u64) -> bool {
    &&& c.last is Some
    &&& elapsed(c.inserted_at, now) < c.ttl * 1000
}

/// One run of a cache node at time `now`, where `produced` is what the child
/// would produce: the new state and whether the child was run.
pub open spec fn cache_run(c: CacheModel, now: u64, produced: FeedModel) -> (CacheModel, bool) {
    if fresh(c, now) {
        (c, false)
    } else {
        (CacheModel { last: Some(produced), inserted_at: now, ..c }, true)
    }
}

/// Two runs of a cache node within its time to live run the wrapped child at
/// most once, and exactly once when the cache starts empty.
pub proof fn lemma_single_invocation(c: CacheModel, t1: u64, t2: u64, v1: FeedModel, v2: FeedModel)
    requires
        t1 <= t2,
        t2 - t1 < c.ttl * 1000,
    ensures
        ({
            let (c1, first) = cache_run(c, t1, v1);
            let (c2, second) = cache_run(c1, t2, v2);
            &&& !(first && second)
            &&& c.last is None ==> first && !second
        }),
{
}

impl CacheState {
    pub fn new(ttl: u64) -> (r: CacheState)
        ensures
            r@ == (CacheModel { ttl, last: None, inserted_at: 0 }),
    {
        CacheState { ttl, last: None, inserted_at: 0 }
    }

    pub fn ttl(&self) -> (r: u64)
        ensures
            r == self@.ttl,
    {
        self.ttl
    }

    pub fn is_fresh(&self, now: u64) -> (r: bool)
        ensures
            r == fresh(self@, now),
    {
        match &self.last {
            None => false,
            Some(_) => {
                let gone: u64 = if now <= self.inserted_at {
                    0
                } else {
                    now - self.inserted_at
                };
                (gone as u128) < (self.ttl as u128) * 1000
            },
        }
    }

    /// The stored feed, if it is still fresh at `now`.
    pub fn lookup(&self, now: u64) -> (r: Option<Feed>)
        ensures
            fresh(self@, now) ==> r is Some && r.unwrap()@ == self@.last.unwrap(),
            !fresh(self@, now) ==> r is None,
    {
        if self.is_fresh(now) {
            match &self.last {
                Some(f) => Some(f.duplicate()),
                None => None,
            }
        } else {
            None
        }
    }

    /// Records what the child produced at `now`.
    pub fn store(&mut self, value: &Feed, now: u64)
        ensures
            final(self)@ == (CacheModel { last: Some(value@), inserted_at: now, ..old(self)@ }),
    {
        self.last = Some(value.duplicate());
        self.inserted_at = now;
    }
}

} // verus!
