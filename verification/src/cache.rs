//! The last answer of the resolver, kept until its deadline.

use crate::name::is_service_name;
use crate::order::{priorities_ascend, zero_weights_last};
use crate::random::RandomSource;
use crate::resolver::{is_ordering_of, lookup, order_resolution, Resolution, ResolveFailure, SrvResolver};
use vstd::prelude::*;

verus! {

/// The instant up to which an answer obtained at `now` is kept. A configured
/// lifetime counts from `now` and takes the place of the deadline that the
/// resolver reported; an instant past the end of the clock is its last tick.
pub open spec fn expiry(now: u64, reported: u64, ttl_override: Option<u64>) -> u64 {
    match ttl_override {
        Some(ttl) => if now + ttl > u64::MAX {
            u64::MAX
        } else {
            (now + ttl) as u64
        },
        None => reported,
    }
}

/// The instant up to which an answer obtained at `now` is kept.
pub fn expiry_at(now: u64, reported: u64, ttl_override: Option<u64>) -> (until: u64)
    ensures
        until == expiry(now, reported, ttl_override),
{
    match ttl_override {
        Some(ttl) => now.saturating_add(ttl),
        None => reported,
    }
}

/// A slot for one ordered answer. It is replaced as a whole or not at all.
#[derive(Debug, Clone, PartialEq, Eq)]
pub struct Cache {
    entry: Option<Resolution>,
}

impl Cache {
    /// The answer in the slot, stale or not.
    pub closed spec fn entry(&self) -> Option<Resolution> {
        self.entry
    }

    /// Whether the slot holds an answer whose deadline lies after `now`.
    pub open spec fn is_fresh(&self, now: u64) -> bool {
        self.entry() matches Some(e) && now < e.valid_until
    }

    /// Whether the slot holds `resolution`, ordered by some draws, with the
    /// deadline that an answer obtained at `now` gets.
    pub open spec fn holds_refreshed(
        &self,
        resolution: Resolution,
        now: u64,
        ttl_override: Option<u64>,
    ) -> bool {
        self.entry() matches Some(e) && is_ordering_of(
            e,
            Resolution {
                records: resolution.records,
                valid_until: expiry(now, resolution.valid_until, ttl_override),
            },
        )
    }

    /// An empty slot.
    pub fn new() -> (cache: Cache)
        ensures
            cache.entry() is None,
    {
        Cache { entry: None }
    }

    /// Whether the slot holds an answer whose deadline lies after `now`.
    pub fn fresh(&self, now: u64) -> (b: bool)
        ensures
            b == self.is_fresh(now),
    {
        match &self.entry {
            Some(e) => now < e.valid_until,
            None => false,
        }
    }

    /// The answer in the slot, stale or not.
    pub fn stored(&self) -> (entry: Option<&Resolution>)
        ensures
            self.entry() is Some ==> entry == Some(&self.entry()->0),
            self.entry() is None ==> entry is None,
    {
        self.entry.as_ref()
    }

    /// The answer in the slot, if its deadline lies after `now`.
    pub fn get(&self, now: u64) -> (hit: Option<&Resolution>)
        ensures
            self.is_fresh(now) ==> hit == Some(&self.entry()->0),
            !self.is_fresh(now) ==> hit is None,
    {
        match &self.entry {
            Some(e) => if now < e.valid_until {
                Some(e)
            } else {
                None
            },
            None => None,
        }
    }

    /// Puts `ordered` in the slot, in place of what was there.
    pub fn store(&mut self, ordered: Resolution)
        ensures
            final(self).entry() == Some(ordered),
    {
        self.entry = Some(ordered);
    }

    /// Takes in the answer `resolution` that the resolver gave at `now`:
    /// orders its records with draws from `rng`, works out the deadline, and
    /// puts the result in the slot.
    pub fn refresh<G: RandomSource>(
        &mut self,
        resolution: Resolution,
        rng: &mut G,
        now: u64,
        ttl_override: Option<u64>,
    )
        ensures
            final(self).holds_refreshed(resolution, now, ttl_override),
            final(self).entry()->0.valid_until == expiry(now, resolution.valid_until, ttl_override),
            final(self).entry()->0.records@.to_multiset() == resolution.records@.to_multiset(),
            priorities_ascend(final(self).entry()->0.records@),
            zero_weights_last(final(self).entry()->0.records@),
    {
        let until = expiry_at(now, resolution.valid_until, ttl_override);
        let ordered = order_resolution(
            Resolution { records: resolution.records, valid_until: until },
            rng,
        );
        self.entry = Some(ordered);
    }

    /// Makes sure that the slot holds an answer that is fresh at `now`, or
    /// says why it does not. A fresh answer is left alone and nobody is asked.
    /// Otherwise `name` is looked up: an answer replaces the slot, a failure
    /// leaves the slot as it was, stale answer included.
    pub fn get_or_refresh<R: SrvResolver, G: RandomSource>(
        &mut self,
        name: &str,
        resolver: &mut R,
        rng: &mut G,
        now: u64,
        ttl_override: Option<u64>,
    ) -> (outcome: Result<(), ResolveFailure<R::Error>>)
        ensures
            old(self).is_fresh(now) ==> {
                &&& outcome is Ok
                &&& *final(self) == *old(self)
                &&& *final(resolver) == *old(resolver)
                &&& *final(rng) == *old(rng)
            },
            !old(self).is_fresh(now) && !is_service_name(name@) ==> {
                &&& outcome == Err::<(), ResolveFailure<R::Error>>(ResolveFailure::MalformedName)
                &&& *final(resolver) == *old(resolver)
                &&& *final(rng) == *old(rng)
            },
            !old(self).is_fresh(now) && is_service_name(name@) ==> !(outcome matches Err(
                ResolveFailure::MalformedName,
            )),
            outcome is Err ==> *final(self) == *old(self),
            outcome is Ok && !old(self).is_fresh(now) ==> exists|resolution: Resolution| #[trigger]
                final(self).holds_refreshed(resolution, now, ttl_override),
            outcome is Ok ==> final(self).entry() is Some,
    {
        if self.fresh(now) {
            return Ok(());
        }
        match lookup(resolver, name) {
            Ok(resolution) => {
                self.refresh(resolution, rng, now, ttl_override);
                Ok(())
            },
            Err(failure) => Err(failure),
        }
    }
}

} // verus!
