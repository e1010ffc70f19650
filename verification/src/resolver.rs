//! What the library asks of a resolver, and what it makes of the answer.

use crate::name::{check_service_name, is_service_name};
use crate::order::{order_records, priorities_ascend, weighted_order, zero_weights_last};
use crate::random::RandomSource;
use crate::record::Record;
use vstd::prelude::*;

verus! {

/// The answer to one lookup: the records, and the instant up to which they
/// may be kept. Instants are ticks of a clock that never runs backwards; the
/// library compares them and adds durations to them, nothing else.
#[derive(Debug, Clone, PartialEq, Eq)]
pub struct Resolution {
    /// The records of the answer.
    pub records: Vec<Record>,
    /// The first instant at which the answer is stale.
    pub valid_until: u64,
}

/// Why a lookup gave no answer.
#[derive(Debug, Clone, PartialEq, Eq)]
pub enum ResolveFailure<E> {
    /// The name is no service name; the resolver was not asked.
    MalformedName,
    /// The resolver was asked and failed.
    Resolver(E),
}

/// Looks up the SRV records of a name. An implementation owes nothing about
/// its answer: the library works on whatever comes back.
pub trait SrvResolver {
    /// What the resolver reports when it fails.
    type Error;

    /// Asks for the records of `name`, in no particular order.
    fn get_srv_records_unordered(&mut self, name: &str) -> Result<Resolution, Self::Error>;
}

/// What a lookup of `name` comes to once the resolver, if it was asked, has
/// given `answer`: a name that is no service name fails whatever the answer,
/// a failure of the resolver is passed on, and an answer is kept as it is.
pub open spec fn lookup_outcome<E>(
    name: Seq<char>,
    answer: Result<Resolution, E>,
) -> Result<Resolution, ResolveFailure<E>> {
    if !is_service_name(name) {
        Err(ResolveFailure::MalformedName)
    } else {
        match answer {
            Ok(resolution) => Ok(resolution),
            Err(e) => Err(ResolveFailure::Resolver(e)),
        }
    }
}

/// Whether `ordered` is `resolution` with its records put in the order of
/// some draws, one for each record.
pub open spec fn is_ordering_of(ordered: Resolution, resolution: Resolution) -> bool {
    &&& ordered.valid_until == resolution.valid_until
    &&& exists|draws: Seq<u64>|
        draws.len() == resolution.records.len() && ordered.records@ == #[trigger] weighted_order(
            resolution.records@,
            draws,
            0,
        )
}

/// Looks `name` up, unordered. The resolver is asked only for a service
/// name, and then once.
pub fn lookup<R: SrvResolver>(resolver: &mut R, name: &str) -> (outcome: Result<
    Resolution,
    ResolveFailure<R::Error>,
>)
    ensures
        !is_service_name(name@) ==> outcome == Err::<Resolution, ResolveFailure<R::Error>>(
            ResolveFailure::MalformedName,
        ) && *final(resolver) == *old(resolver),
        is_service_name(name@) ==> !(outcome matches Err(ResolveFailure::MalformedName)),
{
    if !check_service_name(name) {
        return Err(ResolveFailure::MalformedName);
    }
    let answer = resolver.get_srv_records_unordered(name);
    settle(name, answer)
}

/// Turns the answer that a resolver gave for `name` into the outcome of the
/// lookup.
pub fn settle<E>(name: &str, answer: Result<Resolution, E>) -> (outcome: Result<
    Resolution,
    ResolveFailure<E>,
>)
    ensures
        outcome == lookup_outcome(name@, answer),
{
    if !check_service_name(name) {
        return Err(ResolveFailure::MalformedName);
    }
    match answer {
        Ok(resolution) => Ok(resolution),
        Err(e) => Err(ResolveFailure::Resolver(e)),
    }
}

/// Puts the records of `resolution` in the order in which they are tried,
/// with one draw from `rng` for each; the deadline is kept.
pub fn order_resolution<G: RandomSource>(resolution: Resolution, rng: &mut G) -> (ordered:
    Resolution)
    ensures
        is_ordering_of(ordered, resolution),
        ordered.records@.to_multiset() == resolution.records@.to_multiset(),
        priorities_ascend(ordered.records@),
        zero_weights_last(ordered.records@),
{
    let Resolution { records, valid_until } = resolution;
    let ordered = order_records(records, rng);
    Resolution { records: ordered, valid_until }
}

/// Looks `name` up and puts the records in the order in which they are tried.
pub fn get_srv_records<R: SrvResolver, G: RandomSource>(
    resolver: &mut R,
    name: &str,
    rng: &mut G,
) -> (outcome: Result<Resolution, ResolveFailure<R::Error>>)
    ensures
        !is_service_name(name@) ==> outcome == Err::<Resolution, ResolveFailure<R::Error>>(
            ResolveFailure::MalformedName,
        ) && *final(resolver) == *old(resolver),
        is_service_name(name@) ==> !(outcome matches Err(ResolveFailure::MalformedName)),
        outcome matches Ok(ordered) ==> priorities_ascend(ordered.records@) && zero_weights_last(
            ordered.records@,
        ),
{
    match lookup(resolver, name) {
        Ok(resolution) => Ok(order_resolution(resolution, rng)),
        Err(failure) => Err(failure),
    }
}

} // verus!
