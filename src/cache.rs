//! The flag store: a snapshot of records keyed by name, with a refresh deadline.
use vstd::prelude::*;

use crate::flag::{FeatureFlag, FlagView, views_of};

verus! {

/// The map that a sequence of records gives: each name maps to the last
/// record that carries it.
pub open spec fn snapshot_of(s: Seq<FlagView>) -> Map<Seq<char>, FlagView>
    decreases s.len(),
{
    if s.len() == 0 {
        Map::empty()
    } else {
        snapshot_of(s.drop_last()).insert(s.last().name, s.last())
    }
}

/// What a point lookup answers: `(enabled, found)`.
pub open spec fn lookup_in(m: Map<Seq<char>, FlagView>, name: Seq<char>) -> (bool, bool) {
    if m.contains_key(name) {
        (m[name].enabled, true)
    } else {
        (false, false)
    }
}

/// Whether `name` is present and enabled.
pub open spec fn enabled_in(m: Map<Seq<char>, FlagView>, name: Seq<char>) -> bool {
    m.contains_key(name) && m[name].enabled
}

/// `s` lists each record of `m` exactly once.
pub open spec fn lists_exactly(s: Seq<FlagView>, m: Map<Seq<char>, FlagView>) -> bool {
    &&& forall|i: int, j: int|
        0 <= i < s.len() && 0 <= j < s.len() && i != j ==> #[trigger] s[i].name != #[trigger] s[j].name
    &&& forall|i: int| 0 <= i < s.len() ==> m.contains_key(#[trigger] s[i].name) && m[s[i].name] == s[i]
    &&& forall|n: Seq<char>| #[trigger] m.contains_key(n) ==> exists|i: int| 0 <= i < s.len() && s[i].name == n
}

/// `x` brought into the range of `i64`.
pub open spec fn clamp_i64(x: int) -> int {
    if x > i64::MAX {
        i64::MAX as int
    } else if x < i64::MIN {
        i64::MIN as int
    } else {
        x
    }
}

/// The refresh deadline, in milliseconds, of a snapshot stored at `now` with an
/// interval of `interval` seconds.
pub open spec fn deadline(now: int, interval: int) -> int {
    clamp_i64(now + interval * 1000)
}

/// How long a freshly created store counts as already expired, in milliseconds.
pub const EXPIRED_BY_MS: i64 = 90_000;

/// The refresh interval, in seconds, of a store that has not been refreshed.
pub const DEFAULT_TTL_SECS: i64 = 60;

fn clamp_to_i64(x: i128) -> (r: i64)
    ensures
        r == clamp_i64(x as int),
{
    if x > i64::MAX as i128 {
        i64::MAX
    } else if x < i64::MIN as i128 {
        i64::MIN
    } else {
        x as i64
    }
}

/// A backend that holds the current snapshot of flags. Times are milliseconds
/// since the Unix epoch.
pub trait Cache: Sized {
    /// The backend's own well-formedness.
    spec fn inv(&self) -> bool;

    /// The records of the current snapshot, by name.
    spec fn flags_view(&self) -> Map<Seq<char>, FlagView>;

    /// The time after which the snapshot is stale.
    spec fn next_refresh(&self) -> int;

    /// The refresh interval of the snapshot, in seconds.
    spec fn refresh_interval(&self) -> int;

    /// Whether the backend never reports an error (an in-process store).
    spec fn infallible(&self) -> bool;

    /// Looks a name up: `(enabled, found)`; an absent name is `(false, false)`.
    fn get(&self, name: &str) -> (r: Result<(bool, bool), String>)
        requires
            self.inv(),
        ensures
            r is Ok ==> r->Ok_0 == lookup_in(self.flags_view(), name@),
            self.infallible() ==> r is Ok,
    ;

    /// Every record of the snapshot, each once, in no particular order.
    fn get_all(&self) -> (r: Result<Vec<FeatureFlag>, String>)
        requires
            self.inv(),
        ensures
            r is Ok ==> lists_exactly(views_of(r->Ok_0@), self.flags_view()),
            self.infallible() ==> r is Ok,
    ;

    /// Replaces the whole snapshot by `flags` (a later record replaces an
    /// earlier one of the same name) and sets the deadline to `now` plus
    /// `interval_allowed` seconds.
    fn refresh(&mut self, flags: &[FeatureFlag], interval_allowed: i32, now: i64) -> (r: Result<(), String>)
        requires
            old(self).inv(),
        ensures
            final(self).inv(),
            final(self).infallible() == old(self).infallible(),
            r is Ok ==> final(self).flags_view() == snapshot_of(views_of(flags@)),
            r is Ok ==> final(self).next_refresh() == deadline(now as int, interval_allowed as int),
            r is Ok ==> final(self).refresh_interval() == interval_allowed,
            old(self).infallible() ==> r is Ok,
    ;

    /// Whether the snapshot is stale at `now`.
    fn should_refresh_cache(&self, now: i64) -> (r: bool)
        requires
            self.inv(),
        ensures
            r == (now > self.next_refresh()),
    ;

    /// Marks the snapshot as expired since well before `now`, keeping its records.
    fn init(&mut self, now: i64) -> (r: Result<(), String>)
        requires
            old(self).inv(),
        ensures
            final(self).inv(),
            final(self).infallible() == old(self).infallible(),
            r is Ok ==> final(self).flags_view() == old(self).flags_view(),
            r is Ok ==> final(self).next_refresh() == clamp_i64(now - EXPIRED_BY_MS),
            r is Ok ==> final(self).refresh_interval() == DEFAULT_TTL_SECS,
            old(self).infallible() ==> r is Ok,
    ;
}

/// Holds one cache backend.
pub struct CacheSystem<C: Cache> {
    cache: C,
}

impl<C: Cache> CacheSystem<C> {
    /// The backend held.
    pub closed spec fn backend(&self) -> C {
        self.cache
    }

    pub fn new(cache: C) -> (r: Self)
        ensures
            r.backend() == cache,
    {
        Self { cache }
    }
}

/// An in-process store. `flags` holds each record of the snapshot once.
pub struct MemoryCache {
    flags: Vec<FeatureFlag>,
    snapshot: Ghost<Map<Seq<char>, FlagView>>,
    cache_ttl: i64,
    next_refresh: i64,
}

/// No name appears twice in `v`, and `m` is exactly what `v` lists.
spec fn indexes(v: Seq<FeatureFlag>, m: Map<Seq<char>, FlagView>) -> bool {
    lists_exactly(views_of(v), m)
}

/// Where a record named `name` stands in `v`, if anywhere.
fn position_of(v: &Vec<FeatureFlag>, name: &String) -> (r: Option<usize>)
    ensures
        match r {
            Some(j) => j < v@.len() && v@[j as int].details.name@ == name@,
            None => forall|k: int| 0 <= k < v@.len() ==> v@[k].details.name@ != name@,
        },
{
    let mut i: usize = 0;
    while i < v.len()
        invariant
            i <= v@.len(),
            forall|k: int| 0 <= k < i ==> v@[k].details.name@ != name@,
        decreases v@.len() - i,
    {
        if v[i].details.name == *name {
            return Some(i);
        }
        i = i + 1;
    }
    None
}

impl MemoryCache {
    /// An empty store, created at `now`, whose deadline lies well before
    /// `now`, so that the first lookup refreshes it.
    pub fn new(now: i64) -> (r: Self)
        ensures
            r.inv(),
            r.flags_view() == Map::<Seq<char>, FlagView>::empty(),
            r.refresh_interval() == DEFAULT_TTL_SECS,
            r.next_refresh() == clamp_i64(now - EXPIRED_BY_MS),
            now > i64::MIN ==> r.next_refresh() < now,
    {
        let r = MemoryCache {
            flags: Vec::new(),
            snapshot: Ghost(Map::empty()),
            cache_ttl: DEFAULT_TTL_SECS,
            next_refresh: clamp_to_i64(now as i128 - EXPIRED_BY_MS as i128),
        };
        proof {
            assert(views_of(r.flags@) =~= Seq::<FlagView>::empty());
        }
        r
    }

    /// The refresh interval, in seconds, of the current snapshot.
    pub fn cache_ttl(&self) -> (r: i64)
        ensures
            r == self.refresh_interval(),
    {
        self.cache_ttl
    }
}

impl Cache for MemoryCache {
    closed spec fn inv(&self) -> bool {
        indexes(self.flags@, self.snapshot@)
    }

    closed spec fn flags_view(&self) -> Map<Seq<char>, FlagView> {
        self.snapshot@
    }

    closed spec fn next_refresh(&self) -> int {
        self.next_refresh as int
    }

    closed spec fn refresh_interval(&self) -> int {
        self.cache_ttl as int
    }

    open spec fn infallible(&self) -> bool {
        true
    }

    fn get(&self, name: &str) -> (r: Result<(bool, bool), String>) {
        let key = String::from_str(name);
        match position_of(&self.flags, &key) {
            Some(j) => {
                proof {
                    let vs = views_of(self.flags@);
                    assert(vs[j as int] == self.flags@[j as int]@);
                    assert(self.snapshot@.contains_key(vs[j as int].name));
                }
                Ok((self.flags[j].enabled, true))
            },
            None => {
                proof {
                    let vs = views_of(self.flags@);
                    if self.snapshot@.contains_key(name@) {
                        assert(exists|i: int| 0 <= i < vs.len() && vs[i].name == name@);
                        let i = choose|i: int| 0 <= i < vs.len() && vs[i].name == name@;
                        assert(self.flags@[i]@.name == name@);
                    }
                }
                Ok((false, false))
            },
        }
    }

    fn get_all(&self) -> (r: Result<Vec<FeatureFlag>, String>) {
        let mut out: Vec<FeatureFlag> = Vec::new();
        let mut i: usize = 0;
        while i < self.flags.len()
            invariant
                i <= self.flags@.len(),
                out@.len() == i,
                forall|k: int| 0 <= k < i ==> #[trigger] out@[k]@ == self.flags@[k]@,
            decreases self.flags@.len() - i,
        {
            out.push(self.flags[i].duplicate());
            i = i + 1;
        }
        proof {
            assert(views_of(out@) =~= views_of(self.flags@));
        }
        Ok(out)
    }

    fn refresh(&mut self, flags: &[FeatureFlag], interval_allowed: i32, now: i64) -> (r: Result<(), String>) {
        let mut fresh: Vec<FeatureFlag> = Vec::new();
        let ghost mut m: Map<Seq<char>, FlagView> = Map::empty();
        proof {
            assert(views_of(fresh@) =~= Seq::<FlagView>::empty());
            assert(views_of(flags@).take(0) =~= Seq::<FlagView>::empty());
        }
        let mut i: usize = 0;
        while i < flags.len()
            invariant
                i <= flags@.len(),
                indexes(fresh@, m),
                m == snapshot_of(views_of(flags@).take(i as int)),
            decreases flags@.len() - i,
        {
            let f = flags[i].duplicate();
            let ghost fv = f@;
            proof {
                let pre = views_of(flags@).take(i as int);
                let post = views_of(flags@).take(i + 1);
                assert(post.drop_last() =~= pre);
                assert(post.last() == fv);
            }
            match position_of(&fresh, &f.details.name) {
                Some(j) => {
                    let ghost before = fresh@;
                    fresh.set(j, f);
                    proof {
                        m = m.insert(fv.name, fv);
                        let vs = views_of(fresh@);
                        let vb = views_of(before);
                        assert(vs =~= vb.update(j as int, fv));
                        assert(vb[j as int].name == fv.name);
                        assert forall|a: int, b: int|
                            0 <= a < vs.len() && 0 <= b < vs.len() && a != b implies
                            #[trigger] vs[a].name != #[trigger] vs[b].name by {
                            if a != j && b != j {
                                assert(vb[a].name != vb[b].name);
                            } else if a == j {
                                assert(vb[j as int].name != vb[b].name);
                            } else {
                                assert(vb[a].name != vb[j as int].name);
                            }
                        }
                        assert forall|a: int| 0 <= a < vs.len() implies
                            m.contains_key(#[trigger] vs[a].name) && m[vs[a].name] == vs[a] by {
                            if a != j {
                                assert(vb[a].name != vb[j as int].name);
                                assert(vb[a] == vs[a]);
                            }
                        }
                        assert forall|n: Seq<char>| #[trigger] m.contains_key(n) implies
                            exists|k: int| 0 <= k < vs.len() && vs[k].name == n by {
                            if n != fv.name {
                                let k = choose|k: int| 0 <= k < vb.len() && vb[k].name == n;
                                assert(vs[k].name == n);
                            } else {
                                assert(vs[j as int].name == n);
                            }
                        }
                    }
                },
                None => {
                    let ghost before = fresh@;
                    fresh.push(f);
                    proof {
                        m = m.insert(fv.name, fv);
                        let vs = views_of(fresh@);
                        let vb = views_of(before);
                        assert(vs =~= vb.push(fv));
                        assert forall|k: int| 0 <= k < vb.len() implies #[trigger] vb[k].name != fv.name by {
                            assert(before[k]@ == vb[k]);
                        }
                        assert forall|a: int, b: int|
                            0 <= a < vs.len() && 0 <= b < vs.len() && a != b implies
                            #[trigger] vs[a].name != #[trigger] vs[b].name by {
                            if a < vb.len() && b < vb.len() {
                                assert(vb[a].name != vb[b].name);
                            } else if a < vb.len() {
                                assert(vb[a].name != fv.name);
                            } else {
                                assert(vb[b].name != fv.name);
                            }
                        }
                        assert forall|a: int| 0 <= a < vs.len() implies
                            m.contains_key(#[trigger] vs[a].name) && m[vs[a].name] == vs[a] by {
                            if a < vb.len() {
                                assert(vb[a].name != fv.name);
                                assert(vb[a] == vs[a]);
                            }
                        }
                        assert forall|n: Seq<char>| #[trigger] m.contains_key(n) implies
                            exists|k: int| 0 <= k < vs.len() && vs[k].name == n by {
                            if n != fv.name {
                                let k = choose|k: int| 0 <= k < vb.len() && vb[k].name == n;
                                assert(vs[k].name == n);
                            } else {
                                assert(vs[vb.len() as int].name == n);
                            }
                        }
                    }
                },
            }
            i = i + 1;
        }
        proof {
            assert(views_of(flags@).take(flags@.len() as int) =~= views_of(flags@));
        }
        self.flags = fresh;
        self.snapshot = Ghost(m);
        self.cache_ttl = interval_allowed as i64;
        self.next_refresh = clamp_to_i64(now as i128 + (interval_allowed as i128) * 1000);
        Ok(())
    }

    fn should_refresh_cache(&self, now: i64) -> (r: bool) {
        now > self.next_refresh
    }

    fn init(&mut self, now: i64) -> (r: Result<(), String>) {
        self.cache_ttl = DEFAULT_TTL_SECS;
        self.next_refresh = clamp_to_i64(now as i128 - EXPIRED_BY_MS as i128);
        Ok(())
    }
}

} // verus!
