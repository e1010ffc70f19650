//! The client: candidate URIs from the cached or freshly resolved records,
//! or the configured fallback where there are none.

use crate::cache::{expiry, Cache};
use crate::name::{check_service_name, is_service_name};
use crate::order::{priorities_ascend, zero_weights_last};
use crate::random::RandomSource;
use crate::record::Record;
use crate::resolver::{Resolution, SrvResolver};
use vstd::prelude::*;

verus! {

/// A URI in parts. How the parts are written out as text is left to the caller.
#[derive(Debug, Clone, PartialEq, Eq)]
pub struct Uri {
    pub scheme: String,
    pub host: String,
    pub port: Option<u16>,
    pub path: String,
}

/// What a `Uri` stands for in contracts.
pub struct UriView {
    pub scheme: Seq<char>,
    pub host: Seq<char>,
    pub port: Option<u16>,
    pub path: Seq<char>,
}

impl View for Uri {
    type V = UriView;

    open spec fn view(&self) -> UriView {
        UriView { scheme: self.scheme@, host: self.host@, port: self.port, path: self.path@ }
    }
}

impl Uri {
    /// A URI with the same parts.
    pub fn duplicate(&self) -> (copy: Uri)
        ensures
            copy@ == self@,
    {
        Uri {
            scheme: self.scheme.clone(),
            host: self.host.clone(),
            port: self.port,
            path: self.path.clone(),
        }
    }
}

/// What a client is set up with; it stays the same for the client's lifetime.
#[derive(Debug, Clone, PartialEq, Eq)]
pub struct Config {
    /// The service name that is looked up.
    pub name: String,
    /// The scheme of every URI made from a record.
    pub scheme: String,
    /// The path of every URI made from a record.
    pub path: String,
    /// The URI that is handed out when no record is to be had.
    pub fallback: Option<Uri>,
    /// Where set, the time for which an answer is kept, in place of the
    /// deadline that the resolver reports.
    pub ttl_override: Option<u64>,
}

/// Why a client cannot be set up.
#[derive(Debug, Clone, Copy, PartialEq, Eq)]
pub enum ConfigError {
    /// The configured lifetime of an answer is zero.
    ZeroTtl,
}

/// Why a client has no candidate to offer.
#[derive(Debug, Clone, Copy, PartialEq, Eq)]
pub enum ClientError {
    /// No record is to be had and no fallback is configured.
    NoFallback,
}

/// The candidates of one call with the instant up to which they hold, in
/// contracts.
pub type Answer = Result<(Seq<UriView>, u64), ClientError>;

/// The URI made from `record`: host and port are the record's, scheme and
/// path the configured ones.
pub open spec fn uri_of(config: Config, record: Record) -> UriView {
    UriView {
        scheme: config.scheme@,
        host: record.target@,
        port: Some(record.port),
        path: config.path@,
    }
}

/// The URIs made from `records`, in their order.
pub open spec fn uris_of(config: Config, records: Seq<Record>) -> Seq<UriView> {
    Seq::new(records.len(), |i: int| uri_of(config, records[i]))
}

/// What is handed out when no record is to be had: the fallback alone, or
/// an error where none is configured.
pub open spec fn fallback_answer(config: Config, until: u64) -> Answer {
    match config.fallback {
        Some(uri) => Ok((seq![uri@], until)),
        None => Err(ClientError::NoFallback),
    }
}

/// What is handed out for the ordered answer `entry`: the URIs of its records
/// and nothing else, or, where it has no records, the fallback and nothing else.
pub open spec fn answer_for(config: Config, entry: Resolution) -> Answer {
    if entry.records.len() > 0 {
        Ok((uris_of(config, entry.records@), entry.valid_until))
    } else {
        fallback_answer(config, entry.valid_until)
    }
}

/// What a list of URIs stands for in contracts.
pub open spec fn uri_views(uris: Seq<Uri>) -> Seq<UriView> {
    Seq::new(uris.len(), |i: int| uris[i]@)
}

/// The result of a call, in contracts.
pub open spec fn answer_view(result: Result<(Vec<Uri>, u64), ClientError>) -> Answer {
    match result {
        Ok((uris, until)) => Ok((uri_views(uris@), until)),
        Err(e) => Err(e),
    }
}

/// The URIs made from `records`, in their order.
pub fn candidates(config: &Config, records: &Vec<Record>) -> (uris: Vec<Uri>)
    ensures
        uri_views(uris@) == uris_of(*config, records@),
        uris.len() == records.len(),
{
    let mut uris: Vec<Uri> = Vec::new();
    let mut i: usize = 0;
    while i < records.len()
        invariant
            i <= records.len(),
            uris.len() == i,
            forall|j: int| 0 <= j < i ==> (#[trigger] uris[j])@ == uri_of(*config, records[j]),
        decreases records.len() - i,
    {
        let record = &records[i];
        uris.push(
            Uri {
                scheme: config.scheme.clone(),
                host: record.target.clone(),
                port: Some(record.port),
                path: config.path.clone(),
            },
        );
        i += 1;
    }
    assert(uri_views(uris@) =~= uris_of(*config, records@));
    uris
}

/// What is handed out when no record is to be had.
pub fn fallback_candidates(config: &Config, until: u64) -> (result: Result<
    (Vec<Uri>, u64),
    ClientError,
>)
    ensures
        answer_view(result) == fallback_answer(*config, until),
        result matches Ok((uris, _)) ==> uris.len() == 1,
{
    match &config.fallback {
        Some(uri) => {
            let mut uris: Vec<Uri> = Vec::new();
            uris.push(uri.duplicate());
            assert(uri_views(uris@) =~= seq![uri@]);
            Ok((uris, until))
        },
        None => Err(ClientError::NoFallback),
    }
}

/// What is handed out for the ordered answer `entry`.
pub fn answer_from(config: &Config, entry: &Resolution) -> (result: Result<
    (Vec<Uri>, u64),
    ClientError,
>)
    ensures
        answer_view(result) == answer_for(*config, *entry),
        result matches Ok((uris, _)) ==> uris.len() > 0,
{
    if entry.records.len() > 0 {
        Ok((candidates(config, &entry.records), entry.valid_until))
    } else {
        fallback_candidates(config, entry.valid_until)
    }
}

/// A client for one service name. It keeps the last answer of the resolver
/// and asks again only once that answer is stale.
#[derive(Debug, Clone, PartialEq, Eq)]
pub struct SrvClient {
    config: Config,
    cache: Cache,
}

impl SrvClient {
    /// What the client was set up with.
    pub closed spec fn config(&self) -> Config {
        self.config
    }

    /// The client's cache.
    pub closed spec fn cache(&self) -> Cache {
        self.cache
    }

    /// Whether the client is set up soundly: a configured lifetime is above
    /// zero. It holds of every client that `new` hands out, and no call
    /// changes the configuration.
    pub open spec fn wf(&self) -> bool {
        self.config().ttl_override != Some(0u64)
    }

    /// What a call at `now` is served from the cache: the candidates of the
    /// cached answer where that is fresh, nothing where the resolver has to
    /// be asked.
    pub open spec fn served(&self, now: u64) -> Option<Answer> {
        if self.cache().is_fresh(now) {
            Some(answer_for(self.config(), self.cache().entry()->0))
        } else {
            None
        }
    }

    /// Sets up a client with nothing cached. A lifetime of zero is refused.
    pub fn new(config: Config) -> (result: Result<SrvClient, ConfigError>)
        ensures
            config.ttl_override == Some(0u64) <==> result is Err,
            result matches Ok(client) ==> {
                &&& client.wf()
                &&& client.config() == config
                &&& client.cache().entry() is None
            },
    {
        match config.ttl_override {
            Some(0) => Err(ConfigError::ZeroTtl),
            _ => Ok(SrvClient { config, cache: Cache::new() }),
        }
    }

    /// What the client was set up with.
    pub fn configuration(&self) -> (config: &Config)
        ensures
            *config == self.config(),
    {
        &self.config
    }

    /// The candidates from the cache, where it holds an answer that is fresh
    /// at `now`; nothing where the resolver has to be asked.
    pub fn cached(&self, now: u64) -> (hit: Option<Result<(Vec<Uri>, u64), ClientError>>)
        ensures
            self.cache().is_fresh(now) ==> hit is Some && Some(answer_view(hit->0)) == self.served(
                now,
            ),
            !self.cache().is_fresh(now) ==> hit is None,
    {
        match self.cache.get(now) {
            Some(entry) => Some(answer_from(&self.config, entry)),
            None => None,
        }
    }

    /// The name to ask the resolver for, or nothing where the configured name
    /// is no service name and asking is pointless.
    pub fn query(&self) -> (name: Option<&str>)
        ensures
            is_service_name(self.config().name@) ==> name is Some && name->0@
                == self.config().name@,
            !is_service_name(self.config().name@) ==> name is None,
    {
        if check_service_name(self.config.name.as_str()) {
            Some(self.config.name.as_str())
        } else {
            None
        }
    }

    /// What the client makes of the outcome of a lookup: an answer for a
    /// configured name that is no service name counts as a failure.
    pub open spec fn accepted(&self, outcome: Option<Resolution>) -> Option<Resolution> {
        if is_service_name(self.config().name@) {
            outcome
        } else {
            None
        }
    }

    /// Takes in what the lookup at `now` came to, and hands out the
    /// candidates. An answer is ordered, cached and served; without one the
    /// cache stays as it was and the fallback is handed out, to hold until
    /// `now` and no longer.
    pub fn complete<G: RandomSource>(
        &mut self,
        outcome: Option<Resolution>,
        rng: &mut G,
        now: u64,
    ) -> (result: Result<(Vec<Uri>, u64), ClientError>)
        ensures
            final(self).config() == old(self).config(),
            old(self).accepted(outcome) is None ==> {
                &&& final(self).cache() == old(self).cache()
                &&& *final(rng) == *old(rng)
                &&& answer_view(result) == fallback_answer(old(self).config(), now)
            },
            old(self).accepted(outcome) matches Some(resolution) ==> {
                &&& final(self).cache().holds_refreshed(
                    resolution,
                    now,
                    old(self).config().ttl_override,
                )
                &&& final(self).cache().entry()->0.records@.to_multiset()
                    == resolution.records@.to_multiset()
                &&& priorities_ascend(final(self).cache().entry()->0.records@)
                &&& zero_weights_last(final(self).cache().entry()->0.records@)
                &&& answer_view(result) == answer_for(
                    old(self).config(),
                    final(self).cache().entry()->0,
                )
                &&& resolution.records.len() == 0 ==> answer_view(result) == fallback_answer(
                    old(self).config(),
                    expiry(now, resolution.valid_until, old(self).config().ttl_override),
                )
            },
            old(self).config().fallback is Some ==> result is Ok,
            result matches Ok((uris, _)) ==> uris.len() > 0,
    {
        let accepted = if check_service_name(self.config.name.as_str()) {
            outcome
        } else {
            None
        };
        match accepted {
            Some(resolution) => {
                self.cache.refresh(resolution, rng, now, self.config.ttl_override);
                match self.cache.stored() {
                    Some(entry) => answer_from(&self.config, entry),
                    None => fallback_candidates(&self.config, now),
                }
            },
            None => fallback_candidates(&self.config, now),
        }
    }

    /// The candidates to try at `now`, in order, with the instant up to which
    /// they hold. A cached answer that is still fresh is served as it is and
    /// nobody is asked. Otherwise the configured name is looked up once: an
    /// answer is ordered, cached and served, and a failure of any kind leaves
    /// the cache alone and yields the fallback. Records and fallback are never
    /// mixed, and the list is never empty.
    pub fn get_fresh_uri_candidates<R: SrvResolver, G: RandomSource>(
        &mut self,
        resolver: &mut R,
        rng: &mut G,
        now: u64,
    ) -> (result: Result<(Vec<Uri>, u64), ClientError>)
        ensures
            final(self).config() == old(self).config(),
            old(self).cache().is_fresh(now) ==> {
                &&& final(self).cache() == old(self).cache()
                &&& *final(resolver) == *old(resolver)
                &&& *final(rng) == *old(rng)
                &&& Some(answer_view(result)) == old(self).served(now)
            },
            !old(self).cache().is_fresh(now) && !is_service_name(old(self).config().name@) ==> {
                &&& final(self).cache() == old(self).cache()
                &&& *final(resolver) == *old(resolver)
                &&& *final(rng) == *old(rng)
                &&& answer_view(result) == fallback_answer(old(self).config(), now)
            },
            !old(self).cache().is_fresh(now) ==> {
                ||| {
                    &&& final(self).cache() == old(self).cache()
                    &&& answer_view(result) == fallback_answer(old(self).config(), now)
                }
                ||| {
                    &&& is_service_name(old(self).config().name@)
                    &&& exists|resolution: Resolution| #[trigger]
                        final(self).cache().holds_refreshed(
                            resolution,
                            now,
                            old(self).config().ttl_override,
                        )
                    &&& answer_view(result) == answer_for(
                        old(self).config(),
                        final(self).cache().entry()->0,
                    )
                }
            },
            old(self).config().fallback is Some ==> result is Ok,
            result matches Ok((uris, _)) ==> uris.len() > 0,
    {
        let refreshed = self.cache.get_or_refresh(
            self.config.name.as_str(),
            resolver,
            rng,
            now,
            self.config.ttl_override,
        );
        match refreshed {
            Ok(()) => match self.cache.stored() {
                Some(entry) => answer_from(&self.config, entry),
                None => fallback_candidates(&self.config, now),
            },
            Err(_) => fallback_candidates(&self.config, now),
        }
    }
}

/// As long as the cached answer is fresh, every call is served the same
/// candidates with the same deadline, whenever it is made.
pub proof fn lemma_fresh_answer_repeats(client: SrvClient, first: u64, second: u64)
    requires
        client.cache().is_fresh(first),
        client.cache().is_fresh(second),
    ensures
        client.served(first) == client.served(second),
        client.served(first) is Some,
{
}

/// An answer that was taken in at `then` is served to every call made before
/// its deadline, and to none made at the deadline or later: such a call has
/// the resolver asked again.
pub proof fn lemma_refreshed_answer_is_served_until_deadline(
    client: SrvClient,
    resolution: Resolution,
    then: u64,
    now: u64,
)
    requires
        client.cache().holds_refreshed(resolution, then, client.config().ttl_override),
    ensures
        now < expiry(then, resolution.valid_until, client.config().ttl_override)
            ==> client.served(now) == Some(
            answer_for(client.config(), client.cache().entry()->0),
        ),
        now >= expiry(then, resolution.valid_until, client.config().ttl_override)
            ==> client.served(now) is None,
{
}

/// The deadline of an answer taken in at `now` is the one that the resolver
/// reported, or, with a configured lifetime, `now` plus that lifetime, which
/// lies after `now` unless the clock is at its end.
pub proof fn lemma_deadline_follows_policy(now: u64, reported: u64, ttl: u64)
    ensures
        expiry(now, reported, None) == reported,
        now + ttl <= u64::MAX ==> expiry(now, reported, Some(ttl)) == now + ttl,
        now + ttl > u64::MAX ==> expiry(now, reported, Some(ttl)) == u64::MAX,
        ttl > 0 && now < u64::MAX ==> expiry(now, reported, Some(ttl)) > now,
{
}

/// Whenever no record is to be had and a fallback is configured, the
/// candidates are the fallback alone; an answer with records never holds it
/// unless a record stands for the same URI.
pub proof fn lemma_fallback_is_all_or_nothing(config: Config, entry: Resolution, until: u64)
    ensures
        config.fallback matches Some(uri) ==> fallback_answer(config, until) == Ok::<
            (Seq<UriView>, u64),
            ClientError,
        >((seq![uri@], until)),
        entry.records.len() == 0 ==> answer_for(config, entry) == fallback_answer(
            config,
            entry.valid_until,
        ),
        entry.records.len() > 0 ==> answer_for(config, entry) == Ok::<
            (Seq<UriView>, u64),
            ClientError,
        >((uris_of(config, entry.records@), entry.valid_until)),
        entry.records.len() > 0 ==> uris_of(config, entry.records@).len() == entry.records.len(),
{
}

} // verus!
