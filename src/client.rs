//! The client: its configuration, the single-flight refresh decisions, and
//! the read path over the current snapshot.
use vstd::prelude::*;

use crate::cache::{Cache, EXPIRED_BY_MS, MemoryCache, clamp_i64, deadline, enabled_in, lists_exactly, snapshot_of};
use crate::circuit::{CircuitState, transitions_keep_consistency};
use crate::error::FlagError;
use crate::flag::{FeatureFlag, views_of};
use crate::merge::{lowered, merge_flags, normalize_names};
use crate::text::{lower_of, to_lower};

verus! {

/// The refresh interval, in seconds, of a snapshot built from local overrides
/// alone after a failed fetch.
pub const FALLBACK_INTERVAL_SECS: i32 = 60;

/// Identity sent with each remote fetch.
#[derive(Debug, Clone)]
pub struct Auth {
    pub project_id: String,
    pub agent_id: String,
    pub environment_id: String,
}

/// What the remote service answers: its records and the refresh interval it
/// allows, in seconds.
#[derive(Debug, Clone)]
pub struct ApiResponse {
    pub interval_allowed: i32,
    pub flags: Vec<FeatureFlag>,
}

/// What a caller that found the snapshot possibly due for refresh is to do.
#[derive(Debug, Clone, Copy, PartialEq, Eq, Structural)]
pub enum RefreshStart {
    /// The snapshot is not stale: nothing to do.
    Fresh,
    /// Another caller holds the refresh lock: read the current snapshot.
    Busy,
    /// The circuit breaker suppresses the fetch: the lock is released again.
    CircuitOpen,
    /// This caller holds the lock and performs one fetch.
    Fetch,
}

/// The decision of one caller: from whether the snapshot is stale, whether the
/// lock is held and the breaker, to the lock, the breaker and the decision.
pub open spec fn begin_spec(stale: bool, busy: bool, circuit: CircuitState, now: int) -> (
    bool,
    CircuitState,
    RefreshStart,
) {
    if !stale {
        (busy, circuit, RefreshStart::Fresh)
    } else if busy {
        (busy, circuit, RefreshStart::Busy)
    } else {
        let (next, go) = circuit.allow_spec(now);
        if go {
            (true, next, RefreshStart::Fetch)
        } else {
            (false, next, RefreshStart::CircuitOpen)
        }
    }
}

/// The number of fetches that callers arriving at `nows`, in order, start
/// while the snapshot stays stale and no refresh completes.
pub open spec fn fetches_started(busy: bool, circuit: CircuitState, nows: Seq<i64>) -> nat
    decreases nows.len(),
{
    if nows.len() == 0 {
        0
    } else {
        let (b, c, s) = begin_spec(true, busy, circuit, nows[0] as int);
        (if s == RefreshStart::Fetch {
            1nat
        } else {
            0nat
        }) + fetches_started(b, c, nows.drop_first())
    }
}

proof fn lemma_held_lock_starts_nothing(circuit: CircuitState, nows: Seq<i64>)
    ensures
        fetches_started(true, circuit, nows) == 0,
    decreases nows.len(),
{
    if nows.len() > 0 {
        lemma_held_lock_starts_nothing(circuit, nows.drop_first());
    }
}

/// Single flight: of any number of callers that find the snapshot stale while
/// no refresh is under way and the breaker lets the first one through, exactly
/// one starts a fetch.
pub proof fn single_flight(circuit: CircuitState, nows: Seq<i64>)
    requires
        nows.len() >= 1,
        circuit.allow_spec(nows[0] as int).1,
    ensures
        fetches_started(false, circuit, nows) == 1,
{
    let (b, c, s) = begin_spec(true, false, circuit, nows[0] as int);
    assert(b && s == RefreshStart::Fetch);
    lemma_held_lock_starts_nothing(c, nows.drop_first());
}

/// Staleness: a snapshot stored at `stored` with an interval of `interval`
/// seconds is fresh at that time and stale at every time past the interval,
/// and a caller that then finds no refresh under way and a breaker that lets
/// fetches through starts one.
pub proof fn staleness_triggers_fetch(stored: i64, interval: i32, now: i64, circuit: CircuitState)
    requires
        interval >= 0,
        stored + interval * 1000 <= i64::MAX,
        now > stored + interval * 1000,
        circuit.allow_spec(now as int).1,
    ensures
        !(stored > deadline(stored as int, interval as int)),
        now > deadline(stored as int, interval as int),
        begin_spec(now > deadline(stored as int, interval as int), false, circuit, now as int).2
            == RefreshStart::Fetch,
{
}

/// A new client fetches first: a client created at `created` is stale at any
/// later `now`, holds no lock and has a closed breaker, so the first caller
/// starts a fetch.
pub proof fn new_client_fetches_first(created: i64, now: i64)
    requires
        i64::MIN < created <= now,
    ensures
        now > clamp_i64(created - EXPIRED_BY_MS),
        begin_spec(now > clamp_i64(created - EXPIRED_BY_MS), false, CircuitState::new_spec(), now as int).2
            == RefreshStart::Fetch,
{
}

/// A flag client over the cache backend `C`. It decides when to refresh and
/// folds each fetch result into the cache; the fetch itself is done by its
/// caller.
pub struct Client<C: Cache> {
    base_url: String,
    max_retries: u32,
    auth: Option<Auth>,
    cache: C,
    circuit_state: CircuitState,
    refresh_in_progress: bool,
}

/// A handle for asking whether one flag is enabled.
pub struct Flag<'a, C: Cache> {
    name: String,
    client: &'a Client<C>,
}

impl<C: Cache> Client<C> {
    /// The cache backend.
    pub closed spec fn cache_of(&self) -> C {
        self.cache
    }

    /// The circuit breaker.
    pub closed spec fn circuit(&self) -> CircuitState {
        self.circuit_state
    }

    /// Whether a caller holds the refresh lock.
    pub closed spec fn refreshing(&self) -> bool {
        self.refresh_in_progress
    }

    /// Base URL, retry budget and identity.
    pub closed spec fn config(&self) -> (Seq<char>, u32, Option<Auth>) {
        (self.base_url@, self.max_retries, self.auth)
    }

    /// The retry budget: consecutive failures that open the breaker.
    pub open spec fn retries(&self) -> u32 {
        self.config().1
    }

    /// The client is well formed: its cache is, and an open breaker has seen
    /// at least the retry budget of failures.
    pub open spec fn wf(&self) -> bool {
        &&& self.cache_of().inv()
        &&& self.circuit().consistent(self.retries())
    }

    /// Whether the flag `name` counts as enabled in the current snapshot.
    pub open spec fn enabled_spec(&self, name: Seq<char>) -> bool {
        enabled_in(self.cache_of().flags_view(), lower_of(name))
    }

    pub fn base_url(&self) -> (r: &str)
        ensures
            r@ == self.config().0,
    {
        self.base_url.as_str()
    }

    pub fn max_retries(&self) -> (r: u32)
        ensures
            r == self.retries(),
    {
        self.max_retries
    }

    pub fn auth(&self) -> (r: &Option<Auth>)
        ensures
            *r == self.config().2,
    {
        &self.auth
    }

    pub fn circuit_state(&self) -> (r: CircuitState)
        ensures
            r == self.circuit(),
    {
        self.circuit_state
    }

    pub fn cache(&self) -> (r: &C)
        ensures
            *r == self.cache_of(),
    {
        &self.cache
    }

    pub fn is_refreshing(&self) -> (r: bool)
        ensures
            r == self.refreshing(),
    {
        self.refresh_in_progress
    }

    /// The identity to fetch with; an error where none was configured.
    pub fn required_auth(&self) -> (r: Result<&Auth, FlagError>)
        ensures
            match r {
                Ok(a) => self.config().2 == Some(*a),
                Err(e) => {
                    &&& self.config().2 is None
                    &&& e is AuthError
                    &&& e->AuthError_0@ == "Authentication is required"@
                },
            },
    {
        match &self.auth {
            Some(a) => Ok(a),
            None => Err(FlagError::AuthError(String::from_str("Authentication is required"))),
        }
    }

    /// Decides at `now` whether this caller refreshes: not when the snapshot is
    /// fresh; not when another caller holds the lock; else the caller takes the
    /// lock and asks the breaker, releasing the lock again if it refuses.
    pub fn begin_refresh(&mut self, now: i64) -> (r: RefreshStart)
        requires
            old(self).wf(),
        ensures
            final(self).wf(),
            final(self).cache_of() == old(self).cache_of(),
            final(self).config() == old(self).config(),
            (final(self).refreshing(), final(self).circuit(), r) == begin_spec(
                now > old(self).cache_of().next_refresh(),
                old(self).refreshing(),
                old(self).circuit(),
                now as int,
            ),
    {
        if !self.cache.should_refresh_cache(now) {
            return RefreshStart::Fresh;
        }
        if self.refresh_in_progress {
            return RefreshStart::Busy;
        }
        self.refresh_in_progress = true;
        proof {
            transitions_keep_consistency(self.circuit_state, now, self.max_retries);
        }
        if self.circuit_state.allow_attempt(now) {
            RefreshStart::Fetch
        } else {
            self.refresh_in_progress = false;
            RefreshStart::CircuitOpen
        }
    }

    /// Folds the outcome of a fetch into the client at `now` and releases the
    /// lock. On success the breaker closes and the cache holds the remote
    /// records, names lowercased, merged under the local overrides, with the
    /// interval the service allows. On failure the breaker counts it and the
    /// cache holds the local overrides alone for the fallback interval; the
    /// fetch error is returned.
    pub fn finish_refresh(
        &mut self,
        outcome: Result<ApiResponse, FlagError>,
        local: &Vec<FeatureFlag>,
        now: i64,
    ) -> (r: Result<(), FlagError>)
        requires
            old(self).wf(),
        ensures
            final(self).wf(),
            !final(self).refreshing(),
            final(self).config() == old(self).config(),
            final(self).cache_of().infallible() == old(self).cache_of().infallible(),
            match outcome {
                Ok(resp) => {
                    &&& final(self).circuit() == old(self).circuit().success_spec()
                    &&& r is Ok ==> final(self).cache_of().flags_view() == snapshot_of(
                        lowered(views_of(resp.flags@)),
                    ).union_prefer_right(snapshot_of(views_of(local@)))
                    &&& r is Ok ==> final(self).cache_of().next_refresh() == deadline(
                        now as int,
                        resp.interval_allowed as int,
                    )
                    &&& r is Ok ==> final(self).cache_of().refresh_interval() == resp.interval_allowed
                    &&& r is Err ==> r->Err_0 is CacheError
                    &&& old(self).cache_of().infallible() ==> r is Ok
                },
                Err(e) => {
                    &&& final(self).circuit() == old(self).circuit().failure_spec(now, old(self).retries())
                    &&& r is Err
                    &&& r != Err::<(), FlagError>(e) ==> r->Err_0 is CacheError
                    &&& old(self).cache_of().infallible() ==> {
                        &&& r == Err::<(), FlagError>(e)
                        &&& final(self).cache_of().flags_view() == snapshot_of(views_of(local@))
                        &&& final(self).cache_of().next_refresh() == deadline(
                            now as int,
                            FALLBACK_INTERVAL_SECS as int,
                        )
                        &&& final(self).cache_of().refresh_interval() == FALLBACK_INTERVAL_SECS
                    }
                },
            },
    {
        proof {
            transitions_keep_consistency(self.circuit_state, now, self.max_retries);
        }
        self.refresh_in_progress = false;
        match outcome {
            Ok(resp) => {
                self.circuit_state.record_success();
                let remote = normalize_names(resp.flags.as_slice());
                let combined = merge_flags(remote.as_slice(), local.as_slice());
                match self.cache.refresh(combined.as_slice(), resp.interval_allowed, now) {
                    Ok(()) => Ok(()),
                    Err(m) => Err(FlagError::CacheError(m)),
                }
            },
            Err(e) => {
                self.circuit_state.record_failure(now, self.max_retries);
                match self.cache.refresh(local.as_slice(), FALLBACK_INTERVAL_SECS, now) {
                    Ok(()) => Err(e),
                    Err(m) => Err(FlagError::CacheError(m)),
                }
            },
        }
    }

    /// Whether the flag `name` (compared in lowercase) is enabled in the
    /// current snapshot; an absent flag, or a cache error, counts as disabled.
    pub fn is_enabled(&self, name: &str) -> (r: bool)
        requires
            self.wf(),
        ensures
            r ==> self.enabled_spec(name@),
            self.cache_of().infallible() ==> r == self.enabled_spec(name@),
    {
        let key = to_lower(name);
        match self.cache.get(key.as_str()) {
            Ok((enabled, exists)) => exists && enabled,
            Err(_) => false,
        }
    }

    /// A handle for the flag `name`.
    pub fn is<'a>(&'a self, name: &str) -> (r: Flag<'a, C>)
        ensures
            r.name_view() == name@,
            r.client_of() == *self,
    {
        Flag { name: String::from_str(name), client: self }
    }

    /// Each name with whether it is enabled, all read from the one current
    /// snapshot.
    pub fn get_multiple(&self, names: &[&str]) -> (r: Vec<(String, bool)>)
        requires
            self.wf(),
        ensures
            r@.len() == names@.len(),
            forall|i: int| 0 <= i < names@.len() ==> (#[trigger] r@[i]).0@ == names@[i]@,
            forall|i: int| 0 <= i < names@.len() ==> (#[trigger] r@[i]).1 ==> self.enabled_spec(names@[i]@),
            self.cache_of().infallible() ==> forall|i: int|
                0 <= i < names@.len() ==> (#[trigger] r@[i]).1 == self.enabled_spec(names@[i]@),
    {
        let mut results: Vec<(String, bool)> = Vec::new();
        let mut i: usize = 0;
        while i < names.len()
            invariant
                self.wf(),
                i <= names@.len(),
                results@.len() == i,
                forall|k: int| 0 <= k < i ==> (#[trigger] results@[k]).0@ == names@[k]@,
                forall|k: int| 0 <= k < i ==> (#[trigger] results@[k]).1 ==> self.enabled_spec(names@[k]@),
                self.cache_of().infallible() ==> forall|k: int|
                    0 <= k < i ==> (#[trigger] results@[k]).1 == self.enabled_spec(names@[k]@),
            decreases names@.len() - i,
        {
            let name = names[i];
            let enabled = self.is_enabled(name);
            results.push((String::from_str(name), enabled));
            i = i + 1;
        }
        results
    }

    /// Whether every named flag is enabled in the current snapshot; true for
    /// no names.
    pub fn all_enabled(&self, names: &[&str]) -> (r: bool)
        requires
            self.wf(),
        ensures
            names@.len() == 0 ==> r,
            r ==> forall|i: int| 0 <= i < names@.len() ==> self.enabled_spec(#[trigger] names@[i]@),
            self.cache_of().infallible() ==> (r == forall|i: int|
                0 <= i < names@.len() ==> self.enabled_spec(#[trigger] names@[i]@)),
    {
        if names.len() == 0 {
            return true;
        }
        let flags = self.get_multiple(names);
        let mut i: usize = 0;
        while i < flags.len()
            invariant
                flags@.len() == names@.len(),
                i <= flags@.len(),
                forall|k: int| 0 <= k < i ==> (#[trigger] flags@[k]).1,
                forall|k: int| 0 <= k < names@.len() ==> (#[trigger] flags@[k]).1 ==> self.enabled_spec(names@[k]@),
                self.cache_of().infallible() ==> forall|k: int|
                    0 <= k < names@.len() ==> (#[trigger] flags@[k]).1 == self.enabled_spec(names@[k]@),
            decreases flags@.len() - i,
        {
            if !flags[i].1 {
                proof {
                    assert(flags@[i as int].1 == false);
                    assert(self.cache_of().infallible() ==> !self.enabled_spec(names@[i as int]@));
                }
                return false;
            }
            i = i + 1;
        }
        proof {
            assert forall|k: int| 0 <= k < names@.len() implies self.enabled_spec(#[trigger] names@[k]@) by {
                assert(flags@[k].1);
            }
        }
        true
    }

    /// Whether some named flag is enabled in the current snapshot; false for
    /// no names.
    pub fn any_enabled(&self, names: &[&str]) -> (r: bool)
        requires
            self.wf(),
        ensures
            names@.len() == 0 ==> !r,
            r ==> exists|i: int| 0 <= i < names@.len() && self.enabled_spec(#[trigger] names@[i]@),
            self.cache_of().infallible() ==> (r == exists|i: int|
                0 <= i < names@.len() && self.enabled_spec(#[trigger] names@[i]@)),
    {
        if names.len() == 0 {
            return false;
        }
        let flags = self.get_multiple(names);
        let mut i: usize = 0;
        while i < flags.len()
            invariant
                flags@.len() == names@.len(),
                i <= flags@.len(),
                forall|k: int| 0 <= k < i ==> !(#[trigger] flags@[k]).1,
                forall|k: int| 0 <= k < names@.len() ==> (#[trigger] flags@[k]).1 ==> self.enabled_spec(names@[k]@),
                self.cache_of().infallible() ==> forall|k: int|
                    0 <= k < names@.len() ==> (#[trigger] flags@[k]).1 == self.enabled_spec(names@[k]@),
            decreases flags@.len() - i,
        {
            if flags[i].1 {
                proof {
                    assert(flags@[i as int].1);
                    assert(self.enabled_spec(names@[i as int]@));
                }
                return true;
            }
            i = i + 1;
        }
        proof {
            if self.cache_of().infallible() {
                assert forall|k: int| 0 <= k < names@.len() implies !self.enabled_spec(#[trigger] names@[k]@) by {
                    assert(!flags@[k].1);
                }
            }
        }
        false
    }

    /// Every record of the current snapshot, each once; a cache failure is a
    /// cache error.
    pub fn list(&self) -> (r: Result<Vec<FeatureFlag>, FlagError>)
        requires
            self.wf(),
        ensures
            r is Ok ==> lists_exactly(views_of(r->Ok_0@), self.cache_of().flags_view()),
            r is Err ==> r->Err_0 is CacheError,
            self.cache_of().infallible() ==> r is Ok,
    {
        match self.cache.get_all() {
            Ok(v) => Ok(v),
            Err(m) => Err(FlagError::CacheError(m)),
        }
    }
}

impl Client<MemoryCache> {
    pub fn builder() -> (r: ClientBuilder)
        ensures
            r.is_default(),
    {
        ClientBuilder::new()
    }
}

impl<'a, C: Cache> Flag<'a, C> {
    /// The flag's name as asked.
    pub closed spec fn name_view(&self) -> Seq<char> {
        self.name@
    }

    /// The client asked.
    pub closed spec fn client_of(&self) -> Client<C> {
        *self.client
    }

    /// Whether the flag is enabled in the client's current snapshot.
    pub fn enabled(&self) -> (r: bool)
        requires
            self.client_of().wf(),
        ensures
            r ==> self.client_of().enabled_spec(self.name_view()),
            self.client_of().cache_of().infallible() ==> r == self.client_of().enabled_spec(self.name_view()),
    {
        self.client.is_enabled(self.name.as_str())
    }
}

/// The retry budget of a new builder.
pub const MAX_RETRIES: u32 = 3;

/// The largest retry budget a client accepts.
pub const MAX_RETRIES_LIMIT: u32 = 10;

/// Settings for a new [`Client`].
pub struct ClientBuilder {
    base_url: String,
    max_retries: u32,
    auth: Option<Auth>,
    use_memory_cache: bool,
    file_name: Option<String>,
}

/// Why settings are refused, in the order they are checked, if they are.
pub open spec fn settings_problem(url: Seq<char>, retries: u32, auth: Option<Auth>) -> Option<Seq<char>> {
    if auth is Some && crate::text::is_blank(auth->0.project_id@) {
        Some("Project ID cannot be empty"@)
    } else if auth is Some && crate::text::is_blank(auth->0.agent_id@) {
        Some("Agent ID cannot be empty"@)
    } else if auth is Some && crate::text::is_blank(auth->0.environment_id@) {
        Some("Environment ID cannot be empty"@)
    } else if crate::text::is_blank(url) {
        Some("Base URL cannot be empty"@)
    } else if retries > MAX_RETRIES_LIMIT {
        Some("Max retries cannot exceed 10"@)
    } else {
        None
    }
}

impl ClientBuilder {
    /// Base URL, retry budget and identity.
    pub closed spec fn settings(&self) -> (Seq<char>, u32, Option<Auth>) {
        (self.base_url@, self.max_retries, self.auth)
    }

    /// Whether the in-memory cache was asked for, and the cache file name.
    pub closed spec fn storage(&self) -> (bool, Option<Seq<char>>) {
        (
            self.use_memory_cache,
            match self.file_name {
                Some(f) => Some(f@),
                None => None,
            },
        )
    }

    /// The settings of a new builder: the public service, the default retry
    /// budget, no identity, no storage choice.
    pub open spec fn is_default(&self) -> bool {
        &&& self.settings().0 == "https://api.flags.gg"@
        &&& self.settings().1 == MAX_RETRIES
        &&& self.settings().2 is None
        &&& self.storage() == (false, None::<Seq<char>>)
    }

    fn new() -> (r: Self)
        ensures
            r.is_default(),
    {
        Self {
            base_url: String::from_str("https://api.flags.gg"),
            max_retries: MAX_RETRIES,
            auth: None,
            use_memory_cache: false,
            file_name: None,
        }
    }

    pub fn with_base_url(self, base_url: &str) -> (r: Self)
        ensures
            r.settings() == (base_url@, self.settings().1, self.settings().2),
            r.storage() == self.storage(),
    {
        ClientBuilder { base_url: String::from_str(base_url), ..self }
    }

    pub fn with_max_retries(self, max_retries: u32) -> (r: Self)
        ensures
            r.settings() == (self.settings().0, max_retries, self.settings().2),
            r.storage() == self.storage(),
    {
        ClientBuilder { max_retries, ..self }
    }

    pub fn with_auth(self, auth: Auth) -> (r: Self)
        ensures
            r.settings() == (self.settings().0, self.settings().1, Some(auth)),
            r.storage() == self.storage(),
    {
        ClientBuilder { auth: Some(auth), ..self }
    }

    pub fn with_file_name(self, file_name: &str) -> (r: Self)
        ensures
            r.settings() == self.settings(),
            r.storage() == (self.storage().0, Some(file_name@)),
    {
        ClientBuilder { file_name: Some(String::from_str(file_name)), ..self }
    }

    pub fn with_memory_cache(self) -> (r: Self)
        ensures
            r.settings() == self.settings(),
            r.storage() == (true, self.storage().1),
    {
        ClientBuilder { use_memory_cache: true, ..self }
    }

    /// A client created at `now` with these settings over an empty in-memory
    /// cache that is already stale, a closed breaker and a free lock; a builder
    /// error naming the first setting that is blank or out of bounds.
    pub fn build(self, now: i64) -> (r: Result<Client<MemoryCache>, FlagError>)
        ensures
            match settings_problem(self.settings().0, self.settings().1, self.settings().2) {
                Some(why) => r is Err && r->Err_0 is BuilderError && r->Err_0->BuilderError_0@ == why,
                None => r is Ok && {
                    let c = r->Ok_0;
                    &&& c.wf()
                    &&& c.config() == self.settings()
                    &&& c.cache_of().flags_view().is_empty()
                    &&& c.cache_of().next_refresh() == clamp_i64(now - EXPIRED_BY_MS)
                    &&& now > i64::MIN ==> c.cache_of().next_refresh() < now
                    &&& c.circuit() == CircuitState::new_spec()
                    &&& !c.refreshing()
                },
            },
    {
        if let Some(auth) = &self.auth {
            if crate::text::blank(auth.project_id.as_str()) {
                return Err(FlagError::BuilderError(String::from_str("Project ID cannot be empty")));
            }
            if crate::text::blank(auth.agent_id.as_str()) {
                return Err(FlagError::BuilderError(String::from_str("Agent ID cannot be empty")));
            }
            if crate::text::blank(auth.environment_id.as_str()) {
                return Err(FlagError::BuilderError(String::from_str("Environment ID cannot be empty")));
            }
        }
        if crate::text::blank(self.base_url.as_str()) {
            return Err(FlagError::BuilderError(String::from_str("Base URL cannot be empty")));
        }
        if self.max_retries > MAX_RETRIES_LIMIT {
            return Err(FlagError::BuilderError(String::from_str("Max retries cannot exceed 10")));
        }
        Ok(Client {
            base_url: self.base_url,
            max_retries: self.max_retries,
            auth: self.auth,
            cache: MemoryCache::new(now),
            circuit_state: CircuitState::new(),
            refresh_in_progress: false,
        })
    }
}

} // verus!
