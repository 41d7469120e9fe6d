//! The route cache: candidate lists keyed by user token and requested
//! model, with a sliding expiry that a hard expiry caps.
//!
//! Times are milliseconds on the cache's own clock.  The clock never runs
//! backwards: a time before the latest one the cache has seen counts as that
//! latest time.  The entries live in a `DashMap`; the cache owns it and asks
//! for exclusive access on every call, so each operation is one atomic step.

use crate::models::{clone_routes, routes_view, RouteConfig, RouteConfigView};
use dashmap::DashMap;
use std::time::Instant;
use vstd::prelude::*;
use vstd::string::StringExecFns;

verus! {

/// `dashmap::DashMap`, taken as an opaque map.  What it holds is named by
/// `entries`.
#[verifier::external_type_specification]
#[verifier::external_body]
#[verifier::reject_recursive_types(K)]
#[verifier::reject_recursive_types(V)]
#[verifier::reject_recursive_types(S)]
pub struct ExDashMap<K, V, S>(dashmap::DashMap<K, V, S>);

/// `std::time::Instant`, taken as an opaque value.
#[verifier::external_type_specification]
#[verifier::external_body]
pub struct ExInstant(std::time::Instant);

/// One cached candidate list with its three instants.
#[derive(Debug, Clone)]
pub struct CacheEntry {
    pub configs: Vec<RouteConfig>,
    pub created_at: u64,
    /// Sliding expiry, pushed forward by every hit.
    pub expires_at: u64,
    /// Fixed expiry.
    pub hard_expires_at: u64,
}

/// The mathematical value of a cache entry.
pub struct CacheEntryView {
    pub configs: Seq<RouteConfigView>,
    pub created_at: u64,
    pub expires_at: u64,
    pub hard_expires_at: u64,
}

impl View for CacheEntry {
    type V = CacheEntryView;

    open spec fn view(&self) -> CacheEntryView {
        CacheEntryView {
            configs: routes_view(self.configs@),
            created_at: self.created_at,
            expires_at: self.expires_at,
            hard_expires_at: self.hard_expires_at,
        }
    }
}

impl CacheEntryView {
    /// An entry is created before it expires, and expires no later than
    /// its hard expiry.
    pub open spec fn ordered(self) -> bool {
        self.created_at <= self.expires_at <= self.hard_expires_at
    }

    /// Whether the entry has expired at time `t`.
    pub open spec fn expired_at(self, t: u64) -> bool {
        t >= self.hard_expires_at || t >= self.expires_at
    }
}

/// What the map holds: for each key the value of its entry.
pub uninterp spec fn entries(m: DashMap<String, CacheEntry>) -> Map<Seq<char>, CacheEntryView>;

/// The map without entries.
pub open spec fn no_entries() -> Map<Seq<char>, CacheEntryView> {
    Map::empty()
}

/// `DashMap::new`: a map without entries.
#[verifier::external_body]
fn storage_new() -> (m: DashMap<String, CacheEntry>)
    ensures
        entries(m) == no_entries(),
{
    DashMap::new()
}

/// `DashMap::get`, with a copy of the entry found: the entry under `key`
/// if the map has one.
#[verifier::external_body]
fn storage_get(m: &DashMap<String, CacheEntry>, key: &str) -> (r: Option<CacheEntry>)
    ensures
        match r {
            Some(e) => entries(*m).contains_key(key@) && entries(*m)[key@] == e@,
            None => !entries(*m).contains_key(key@),
        },
{
    m.get(key).map(|e| e.value().clone())
}

/// `DashMap::insert`: afterwards `key` is bound to `value`, and every other
/// key is as before.
#[verifier::external_body]
fn storage_insert(m: &mut DashMap<String, CacheEntry>, key: String, value: CacheEntry)
    ensures
        entries(*final(m)) == entries(*old(m)).insert(key@, value@),
{
    m.insert(key, value);
}

/// `DashMap::remove`: afterwards `key` is unbound, and every other key is
/// as before.
#[verifier::external_body]
fn storage_remove(m: &mut DashMap<String, CacheEntry>, key: &str)
    ensures
        entries(*final(m)) == entries(*old(m)).remove(key@),
{
    m.remove(key);
}

/// `DashMap::clear`: afterwards the map has no entries.
#[verifier::external_body]
fn storage_clear(m: &mut DashMap<String, CacheEntry>)
    ensures
        entries(*final(m)) == no_entries(),
{
    m.clear();
}

/// `Instant::now`: the instant from which a cache counts its time.
#[verifier::external_body]
fn clock_start() -> Instant {
    Instant::now()
}

/// `Instant::elapsed` in whole milliseconds, `u64::MAX` where they do not
/// fit.  Nothing is claimed of the value.
#[verifier::external_body]
fn elapsed_millis(since: &Instant) -> u64 {
    u64::try_from(since.elapsed().as_millis()).unwrap_or(u64::MAX)
}

/// `a + b`, or `u64::MAX` where the sum does not fit.
pub open spec fn sat_add(a: u64, b: u64) -> u64 {
    if a + b > u64::MAX {
        u64::MAX
    } else {
        (a + b) as u64
    }
}

pub open spec fn min_u64(a: u64, b: u64) -> u64 {
    if a <= b {
        a
    } else {
        b
    }
}

pub open spec fn max_u64(a: u64, b: u64) -> u64 {
    if a >= b {
        a
    } else {
        b
    }
}

/// The key of a candidate list: user token, a colon, requested model.
pub open spec fn cache_key(token: Seq<char>, model: Seq<char>) -> Seq<char> {
    token + ":"@ + model
}

/// The candidates that do not name the upstream of `failed`, in order.
pub open spec fn without_upstream(configs: Seq<RouteConfigView>, failed: RouteConfigView) -> Seq<
    RouteConfigView,
>
    decreases configs.len(),
{
    if configs.len() == 0 {
        Seq::empty()
    } else {
        let rest = without_upstream(configs.drop_last(), failed);
        if configs.last().same_upstream(failed) {
            rest
        } else {
            rest.push(configs.last())
        }
    }
}

/// The mathematical value of a cache.
pub struct CacheView {
    pub entries: Map<Seq<char>, CacheEntryView>,
    /// Sliding time to live.
    pub ttl: u64,
    /// Hard limit on an entry's age.
    pub max_lifetime: u64,
    /// The latest time the cache has seen.
    pub clock: u64,
}

impl CacheView {
    /// Every entry is ordered and was created no later than the clock
    /// shows.
    pub open spec fn wf(self) -> bool {
        forall|k: Seq<char>| #[trigger]
            self.entries.contains_key(k) ==> self.entries[k].ordered()
                && self.entries[k].created_at <= self.clock
    }

    /// The time that a call at `now` works with.
    pub open spec fn time(self, now: u64) -> u64 {
        max_u64(self.clock, now)
    }

    pub open spec fn with_entries(
        self,
        entries: Map<Seq<char>, CacheEntryView>,
        clock: u64,
    ) -> CacheView {
        CacheView { entries, ttl: self.ttl, max_lifetime: self.max_lifetime, clock }
    }

    /// The sliding expiry given at time `t` to an entry with hard expiry
    /// `hard`.
    pub open spec fn slide(self, t: u64, hard: u64) -> u64 {
        min_u64(sat_add(t, self.ttl), hard)
    }

    /// Insert or replace the list under a key.
    pub open spec fn set(
        self,
        token: Seq<char>,
        model: Seq<char>,
        configs: Seq<RouteConfigView>,
        now: u64,
    ) -> CacheView {
        let t = self.time(now);
        let hard = sat_add(t, self.max_lifetime);
        self.with_entries(
            self.entries.insert(
                cache_key(token, model),
                CacheEntryView {
                    configs,
                    created_at: t,
                    expires_at: self.slide(t, hard),
                    hard_expires_at: hard,
                },
            ),
            t,
        )
    }

    /// Look a key up: a miss where there is no entry; a miss that deletes
    /// the entry where it has expired; else a hit that pushes the sliding
    /// expiry forward and gives the list.
    pub open spec fn get(self, token: Seq<char>, model: Seq<char>, now: u64) -> (
        CacheView,
        Option<Seq<RouteConfigView>>,
    ) {
        let t = self.time(now);
        let key = cache_key(token, model);
        if !self.entries.contains_key(key) {
            (self.with_entries(self.entries, t), None)
        } else {
            let e = self.entries[key];
            if e.expired_at(t) {
                (self.with_entries(self.entries.remove(key), t), None)
            } else {
                (
                    self.with_entries(
                        self.entries.insert(
                            key,
                            CacheEntryView {
                                configs: e.configs,
                                created_at: e.created_at,
                                expires_at: self.slide(t, e.hard_expires_at),
                                hard_expires_at: e.hard_expires_at,
                            },
                        ),
                        t,
                    ),
                    Some(e.configs),
                )
            }
        }
    }

    /// Drop from a key's list every candidate that names the upstream of
    /// `failed`; an entry whose list becomes empty is deleted.
    pub open spec fn remove_config(
        self,
        token: Seq<char>,
        model: Seq<char>,
        failed: RouteConfigView,
    ) -> CacheView {
        let key = cache_key(token, model);
        if !self.entries.contains_key(key) {
            self
        } else {
            let e = self.entries[key];
            let kept = without_upstream(e.configs, failed);
            if kept.len() == 0 {
                self.with_entries(self.entries.remove(key), self.clock)
            } else {
                self.with_entries(
                    self.entries.insert(
                        key,
                        CacheEntryView {
                            configs: kept,
                            created_at: e.created_at,
                            expires_at: e.expires_at,
                            hard_expires_at: e.hard_expires_at,
                        },
                    ),
                    self.clock,
                )
            }
        }
    }

    /// Drop every entry.
    pub open spec fn clear(self) -> CacheView {
        self.with_entries(Map::empty(), self.clock)
    }
}

/// No candidate left by `without_upstream` names the upstream of `failed`,
/// and every candidate of another upstream is left.
pub proof fn lemma_without_upstream(configs: Seq<RouteConfigView>, failed: RouteConfigView)
    ensures
        forall|i: int|
            0 <= i < without_upstream(configs, failed).len() ==> !(#[trigger] without_upstream(
                configs,
                failed,
            )[i]).same_upstream(failed),
        forall|i: int|
            0 <= i < without_upstream(configs, failed).len() ==> configs.contains(
                #[trigger] without_upstream(configs, failed)[i],
            ),
        forall|j: int|
            0 <= j < configs.len() && !(#[trigger] configs[j]).same_upstream(failed)
                ==> without_upstream(configs, failed).contains(configs[j]),
        without_upstream(configs, failed).len() <= configs.len(),
    decreases configs.len(),
{
    if configs.len() > 0 {
        let prev = configs.drop_last();
        lemma_without_upstream(prev, failed);
        let rest = without_upstream(prev, failed);
        let out = without_upstream(configs, failed);
        assert forall|i: int| 0 <= i < out.len() implies configs.contains(#[trigger] out[i]) by {
            if i < rest.len() {
                assert(prev.contains(rest[i]));
                let j = choose|j: int| 0 <= j < prev.len() && prev[j] == rest[i];
                assert(configs[j] == rest[i]);
            } else {
                assert(out[i] == configs[configs.len() - 1]);
            }
        }
        assert forall|j: int|
            0 <= j < configs.len() && !(#[trigger] configs[j]).same_upstream(failed)
        implies out.contains(configs[j]) by {
            if j < prev.len() {
                assert(prev[j] == configs[j]);
                assert(rest.contains(prev[j]));
                let i = choose|i: int| 0 <= i < rest.len() && rest[i] == prev[j];
                assert(out[i] == configs[j]);
            } else {
                assert(out[out.len() - 1] == configs[j]);
            }
        }
    }
}

/// Every operation keeps the entries ordered: an entry never expires
/// before it was created nor after its hard expiry.
pub proof fn lemma_operations_keep_order(
    v: CacheView,
    token: Seq<char>,
    model: Seq<char>,
    configs: Seq<RouteConfigView>,
    failed: RouteConfigView,
    now: u64,
)
    requires
        v.wf(),
    ensures
        v.set(token, model, configs, now).wf(),
        v.get(token, model, now).0.wf(),
        v.remove_config(token, model, failed).wf(),
        v.clear().wf(),
{
}

/// What `set` stores is what `get` gives back, as long as the entry has not
/// expired.
pub proof fn lemma_set_get(
    v: CacheView,
    token: Seq<char>,
    model: Seq<char>,
    configs: Seq<RouteConfigView>,
    now: u64,
    later: u64,
)
    requires
        v.time(now) <= later,
        later < v.set(token, model, configs, now).entries[cache_key(token, model)].expires_at,
    ensures
        v.set(token, model, configs, now).get(token, model, later).1 == Some(configs),
{
}

/// Of two `set`s on one key the later one wins.
pub proof fn lemma_set_set_get(
    v: CacheView,
    token: Seq<char>,
    model: Seq<char>,
    first: Seq<RouteConfigView>,
    second: Seq<RouteConfigView>,
    t1: u64,
    t2: u64,
    later: u64,
)
    requires
        v.time(t1) <= t2 <= later,
        later < v.set(token, model, first, t1).set(token, model, second, t2).entries[cache_key(
            token,
            model,
        )].expires_at,
    ensures
        v.set(token, model, first, t1).set(token, model, second, t2).get(token, model, later).1
            == Some(second),
{
}

/// Two hits in a row: the second leaves the sliding expiry no earlier than
/// the first left it, and never past the hard expiry, which stays fixed.
pub proof fn lemma_get_get_slides(
    v: CacheView,
    token: Seq<char>,
    model: Seq<char>,
    t1: u64,
    t2: u64,
)
    requires
        v.wf(),
        v.get(token, model, t1).1 is Some,
        v.get(token, model, t1).0.get(token, model, t2).1 is Some,
    ensures
        ({
            let key = cache_key(token, model);
            let before = v.entries[key];
            let first = v.get(token, model, t1).0.entries[key];
            let second = v.get(token, model, t1).0.get(token, model, t2).0.entries[key];
            &&& first.expires_at <= second.expires_at
            &&& second.expires_at <= second.hard_expires_at
            &&& first.hard_expires_at == before.hard_expires_at
            &&& second.hard_expires_at == before.hard_expires_at
        }),
{
}

/// After `remove_config` the next `get` on the key gives no candidate that
/// names the failed upstream.
pub proof fn lemma_evicted_stays_out(
    v: CacheView,
    token: Seq<char>,
    model: Seq<char>,
    failed: RouteConfigView,
    now: u64,
)
    ensures
        match v.remove_config(token, model, failed).get(token, model, now).1 {
            Some(list) => forall|i: int|
                0 <= i < list.len() ==> !(#[trigger] list[i]).same_upstream(failed),
            None => true,
        },
{
    let key = cache_key(token, model);
    if v.entries.contains_key(key) {
        lemma_without_upstream(v.entries[key].configs, failed);
    }
}

/// The route cache.
pub struct Cache {
    storage: DashMap<String, CacheEntry>,
    ttl: u64,
    max_lifetime: u64,
    clock: u64,
    epoch: Instant,
}

impl View for Cache {
    type V = CacheView;

    closed spec fn view(&self) -> CacheView {
        CacheView {
            entries: entries(self.storage),
            ttl: self.ttl,
            max_lifetime: self.max_lifetime,
            clock: self.clock,
        }
    }
}

fn add_capped(a: u64, b: u64) -> (r: u64)
    ensures
        r == sat_add(a, b),
{
    if b > u64::MAX - a {
        u64::MAX
    } else {
        a + b
    }
}

/// Copies of the candidates that do not name the upstream of `failed`.
pub fn retain_other_upstreams(configs: &Vec<RouteConfig>, failed: &RouteConfig) -> (r: Vec<
    RouteConfig,
>)
    ensures
        routes_view(r@) == without_upstream(routes_view(configs@), failed@),
{
    let mut out: Vec<RouteConfig> = Vec::new();
    let mut i: usize = 0;
    assert(routes_view(configs@).take(0) =~= Seq::empty());
    assert(routes_view(out@) =~= Seq::empty());
    while i < configs.len()
        invariant
            i <= configs.len(),
            routes_view(out@) == without_upstream(routes_view(configs@).take(i as int), failed@),
        decreases configs.len() - i,
    {
        let ghost all = routes_view(configs@);
        let ghost before = routes_view(out@);
        proof {
            assert(all.take(i + 1).drop_last() =~= all.take(i as int));
            assert(all.take(i + 1).last() == configs@[i as int]@);
        }
        if !configs[i].same_upstream(failed) {
            out.push(configs[i].clone());
            assert(routes_view(out@) =~= before.push(configs@[i as int]@));
        }
        i += 1;
    }
    assert(routes_view(configs@).take(configs.len() as int) =~= routes_view(configs@));
    out
}

impl Cache {
    /// A cache without entries, with the given sliding time to live and
    /// hard limit, both in milliseconds.
    pub fn new(ttl: u64, max_lifetime: u64) -> (r: Cache)
        ensures
            r@.entries == no_entries(),
            r@.ttl == ttl,
            r@.max_lifetime == max_lifetime,
            r@.clock == 0,
            r@.wf(),
    {
        Cache { storage: storage_new(), ttl, max_lifetime, clock: 0, epoch: clock_start() }
    }

    /// The key of a candidate list.
    pub fn make_key(token: &str, model: &str) -> (r: String)
        ensures
            r@ == cache_key(token@, model@),
    {
        token.to_owned().concat(":").concat(model)
    }

    /// The list under the key at time `now`, if there is a live entry.
    /// A hit refreshes the sliding expiry; the list is a copy, so what the
    /// caller walks through is not touched by later changes to the cache.
    pub fn get_at(&mut self, token: &str, model: &str, now: u64) -> (r: Option<Vec<RouteConfig>>)
        ensures
            final(self)@ == old(self)@.get(token@, model@, now).0,
            match r {
                Some(list) => old(self)@.get(token@, model@, now).1 == Some(routes_view(list@)),
                None => old(self)@.get(token@, model@, now).1 is None,
            },
            old(self)@.wf() ==> final(self)@.wf(),
    {
        let key = Cache::make_key(token, model);
        let t: u64 = if now > self.clock {
            now
        } else {
            self.clock
        };
        self.clock = t;
        match storage_get(&self.storage, key.as_str()) {
            None => {
                assert(self@ =~= old(self)@.get(token@, model@, now).0);
                None
            },
            Some(entry) => {
                if t >= entry.hard_expires_at || t >= entry.expires_at {
                    storage_remove(&mut self.storage, key.as_str());
                    assert(self@ =~= old(self)@.get(token@, model@, now).0);
                    None
                } else {
                    let slid: u64 = add_capped(t, self.ttl);
                    let expires_at: u64 = if slid <= entry.hard_expires_at {
                        slid
                    } else {
                        entry.hard_expires_at
                    };
                    let list = clone_routes(&entry.configs);
                    storage_insert(
                        &mut self.storage,
                        key,
                        CacheEntry {
                            configs: entry.configs,
                            created_at: entry.created_at,
                            expires_at,
                            hard_expires_at: entry.hard_expires_at,
                        },
                    );
                    assert(self@ =~= old(self)@.get(token@, model@, now).0);
                    Some(list)
                }
            },
        }
    }

    /// Inserts or replaces the list under the key at time `now`.
    pub fn set_at(&mut self, token: &str, model: &str, configs: Vec<RouteConfig>, now: u64)
        ensures
            final(self)@ == old(self)@.set(token@, model@, routes_view(configs@), now),
            old(self)@.wf() ==> final(self)@.wf(),
    {
        let key = Cache::make_key(token, model);
        let t: u64 = if now > self.clock {
            now
        } else {
            self.clock
        };
        self.clock = t;
        let hard: u64 = add_capped(t, self.max_lifetime);
        let slid: u64 = add_capped(t, self.ttl);
        let expires_at: u64 = if slid <= hard {
            slid
        } else {
            hard
        };
        storage_insert(
            &mut self.storage,
            key,
            CacheEntry { configs, created_at: t, expires_at, hard_expires_at: hard },
        );
        assert(self@ =~= old(self)@.set(token@, model@, routes_view(configs@), now));
    }

    /// Drops from the key's list every candidate that names the upstream
    /// of `failed_config`, and the entry with it if none is left.
    pub fn remove_config(&mut self, token: &str, model: &str, failed_config: &RouteConfig)
        ensures
            final(self)@ == old(self)@.remove_config(token@, model@, failed_config@),
            old(self)@.wf() ==> final(self)@.wf(),
    {
        let key = Cache::make_key(token, model);
        match storage_get(&self.storage, key.as_str()) {
            None => {},
            Some(entry) => {
                let kept = retain_other_upstreams(&entry.configs, failed_config);
                if kept.len() == 0 {
                    storage_remove(&mut self.storage, key.as_str());
                } else {
                    storage_insert(
                        &mut self.storage,
                        key,
                        CacheEntry {
                            configs: kept,
                            created_at: entry.created_at,
                            expires_at: entry.expires_at,
                            hard_expires_at: entry.hard_expires_at,
                        },
                    );
                }
                assert(self@ =~= old(self)@.remove_config(token@, model@, failed_config@));
            },
        }
    }

    /// Drops every entry.
    pub fn clear(&mut self)
        ensures
            final(self)@ == old(self)@.clear(),
            final(self)@.wf(),
    {
        storage_clear(&mut self.storage);
    }

    /// A copy of the entry under the key, whether it has expired or not.
    /// The entry is not touched.
    pub fn entry(&self, token: &str, model: &str) -> (r: Option<CacheEntry>)
        ensures
            match r {
                Some(e) => self@.entries.contains_key(cache_key(token@, model@))
                    && self@.entries[cache_key(token@, model@)] == e@,
                None => !self@.entries.contains_key(cache_key(token@, model@)),
            },
    {
        let key = Cache::make_key(token, model);
        storage_get(&self.storage, key.as_str())
    }

    /// The time that the cache's clock shows: milliseconds since the cache
    /// was made.
    pub fn now(&self) -> u64 {
        elapsed_millis(&self.epoch)
    }

    /// `get_at` at the time that the cache's clock shows.
    pub fn get(&mut self, token: &str, model: &str) -> (r: Option<Vec<RouteConfig>>)
        ensures
            exists|now: u64|
                final(self)@ == (#[trigger] old(self)@.get(token@, model@, now)).0 && match r {
                    Some(list) => old(self)@.get(token@, model@, now).1 == Some(
                        routes_view(list@),
                    ),
                    None => old(self)@.get(token@, model@, now).1 is None,
                },
            old(self)@.wf() ==> final(self)@.wf(),
    {
        let now: u64 = self.now();
        self.get_at(token, model, now)
    }

    /// `set_at` at the time that the cache's clock shows.
    pub fn set(&mut self, token: &str, model: &str, configs: Vec<RouteConfig>)
        ensures
            exists|now: u64|
                final(self)@ == #[trigger] old(self)@.set(
                    token@,
                    model@,
                    routes_view(configs@),
                    now,
                ),
            old(self)@.wf() ==> final(self)@.wf(),
    {
        let now: u64 = self.now();
        self.set_at(token, model, configs, now)
    }
}

} // verus!
