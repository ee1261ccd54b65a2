//! The freshness cache: a key to (timestamp, value) store with a TTL-based
//! staleness check and lazy expiry.
//!
//! An entry is usable while `now < stored_at + ttl`; a stale entry is treated
//! as absent by `lookup` but is not evicted (no background sweeping), so a
//! failed refresh never erases the last stored value.

use vstd::prelude::*;
use vstd::pervasive::VecAdditionalExecFns;

verus! {

/// The default time-to-live of a cache entry, in seconds.
pub const CACHE_TTL_SECS: u64 = 300;

/// The cache. Internally a list with at most one live entry per key —
/// `insert` replaces in place — whose abstract value is the map from key to
/// that entry's (timestamp, value) pair.
pub struct FreshnessCache {
    entries: Vec<(String, u64, Vec<u8>)>,
    ttl_secs: u64,
}

/// The map described by an entry list: the first entry for each key wins.
pub open spec fn entries_map(s: Seq<(String, u64, Vec<u8>)>) -> Map<Seq<char>, (u64, Seq<u8>)>
    decreases s.len(),
{
    if s.len() == 0 {
        Map::empty()
    } else {
        entries_map(s.drop_first()).insert(s.first().0@, (s.first().1, s.first().2@))
    }
}

impl View for FreshnessCache {
    type V = Map<Seq<char>, (u64, Seq<u8>)>;

    closed spec fn view(&self) -> Map<Seq<char>, (u64, Seq<u8>)> {
        entries_map(self.entries@)
    }
}

/// Entries before index `i` that miss the key do not affect what the map
/// holds at that key.
proof fn lemma_entries_map_skip(s: Seq<(String, u64, Vec<u8>)>, key: Seq<char>, i: int)
    requires
        0 <= i <= s.len(),
        forall|j: int| 0 <= j < i ==> s[j].0@ != key,
    ensures
        entries_map(s).contains_key(key) == entries_map(s.skip(i)).contains_key(key),
        entries_map(s).contains_key(key) ==> entries_map(s)[key] == entries_map(s.skip(i))[key],
    decreases i,
{
    if i > 0 {
        lemma_entries_map_skip(s, key, i - 1);
        let t = s.skip(i - 1);
        assert(t.drop_first() =~= s.skip(i));
        assert(t.first() == s[i - 1]);
    } else {
        assert(s.skip(0) =~= s);
    }
}

/// Replacing the first entry that carries the key updates the map at that
/// key and nothing else.
proof fn lemma_entries_map_update(
    s: Seq<(String, u64, Vec<u8>)>,
    i: int,
    e: (String, u64, Vec<u8>),
)
    requires
        0 <= i < s.len(),
        s[i].0@ == e.0@,
        forall|j: int| 0 <= j < i ==> s[j].0@ != e.0@,
    ensures
        entries_map(s.update(i, e)) == entries_map(s).insert(e.0@, (e.1, e.2@)),
    decreases i,
{
    let t = s.update(i, e);
    if i == 0 {
        assert(t.drop_first() =~= s.drop_first());
        assert(t.first() == e);
        assert(entries_map(s).insert(e.0@, (e.1, e.2@)) =~= entries_map(s.drop_first()).insert(
            e.0@,
            (e.1, e.2@),
        ));
    } else {
        assert(t.drop_first() =~= s.drop_first().update(i - 1, e));
        assert(t.first() == s.first());
        lemma_entries_map_update(s.drop_first(), i - 1, e);
        assert(entries_map(s.drop_first()).insert(e.0@, (e.1, e.2@)).insert(
            s.first().0@,
            (s.first().1, s.first().2@),
        ) =~= entries_map(s.drop_first()).insert(s.first().0@, (s.first().1, s.first().2@)).insert(
            e.0@,
            (e.1, e.2@),
        ));
    }
}

impl FreshnessCache {
    /// The time-to-live this cache was created with, in seconds.
    pub closed spec fn ttl(&self) -> u64 {
        self.ttl_secs
    }

    /// Whether the entry for `key` exists and is still usable at `now`.
    pub open spec fn is_fresh(&self, key: Seq<char>, now: u64) -> bool {
        self@.contains_key(key) && (now as int) < self@[key].0 + self.ttl()
    }

    /// An empty cache with the given time-to-live.
    pub fn new(ttl_secs: u64) -> (r: FreshnessCache)
        ensures
            r@ == Map::<Seq<char>, (u64, Seq<u8>)>::empty(),
            r.ttl() == ttl_secs,
    {
        FreshnessCache { entries: Vec::new(), ttl_secs }
    }

    /// Looks the key up; returns the stored value only while the entry is
    /// fresh. A stale or missing entry yields `None`; nothing is evicted.
    pub fn lookup(&self, key: &String, now: u64) -> (r: Option<Vec<u8>>)
        ensures
            match r {
                Some(v) => self.is_fresh(key@, now) && v@ == self@[key@].1,
                None => !self.is_fresh(key@, now),
            },
    {
        let ghost s = self.entries@;
        let mut i: usize = 0;
        while i < self.entries.len()
            invariant
                i <= s.len(),
                s == self.entries@,
                forall|j: int| 0 <= j < i ==> s[j].0@ != key@,
            decreases s.len() - i,
        {
            let e = &self.entries[i];
            if e.0 == *key {
                proof {
                    lemma_entries_map_skip(s, key@, i as int);
                    assert(s.skip(i as int).first() == s[i as int]);
                    assert(s.skip(i as int).drop_first() =~= s.skip(i as int + 1));
                }
                // `now < stored_at + ttl`, tested without wraparound.
                if now < e.1 || now - e.1 < self.ttl_secs {
                    let mut out: Vec<u8> = Vec::new();
                    crate::codec::push_all(&mut out, &e.2);
                    return Some(out);
                }
                return None;
            }
            i = i + 1;
        }
        proof {
            lemma_entries_map_skip(s, key@, s.len() as int);
            assert(s.skip(s.len() as int) =~= Seq::<(String, u64, Vec<u8>)>::empty());
        }
        None
    }

    /// Stores the value for the key with the given timestamp, overwriting in
    /// place any prior entry for that key: a refresh never grows the store.
    pub fn insert(&mut self, key: String, now: u64, value: Vec<u8>)
        ensures
            final(self)@ == old(self)@.insert(key@, (now, value@)),
            final(self).ttl() == old(self).ttl(),
    {
        let ghost old_s = self.entries@;
        let ghost k = key@;
        let ghost v = value@;
        let mut i: usize = 0;
        while i < self.entries.len()
            invariant
                i <= old_s.len(),
                old_s == self.entries@,
                entries_map(old_s) == old(self)@,
                self.ttl_secs == old(self).ttl(),
                k == key@,
                v == value@,
                forall|j: int| 0 <= j < i ==> old_s[j].0@ != k,
            decreases old_s.len() - i,
        {
            if self.entries[i].0 == key {
                self.entries.set(i, (key, now, value));
                proof {
                    lemma_entries_map_update(old_s, i as int, (self.entries@[i as int]));
                    assert(self.entries@ =~= old_s.update(
                        i as int,
                        self.entries@[i as int],
                    ));
                }
                return;
            }
            i = i + 1;
        }
        self.entries.insert(0, (key, now, value));
        proof {
            assert(self.entries@.drop_first() =~= old_s);
            assert(self.entries@.first().0@ == k);
            assert(self.entries@.first().1 == now);
            assert(self.entries@.first().2@ == v);
        }
    }
}

} // verus!
