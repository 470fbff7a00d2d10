//! In-memory weather cache: entries keyed by text, each stamped with the
//! Unix time at which it was stored, and handed back only while younger
//! than the time-to-live.

use vstd::prelude::*;

verus! {

/// Time-to-live of a cached entry: 300 minutes.
pub const TTL_SECONDS: u64 = 18000;

/// A cached value together with the Unix time (seconds) it was stored at.
pub struct CacheEntry<T> {
    pub cached_at: u64,
    pub data: T,
}

/// An entry stored at `cached_at` may still be used at `now`: the clock has
/// not gone back before the store, and less than the TTL has elapsed.
pub open spec fn is_fresh(cached_at: u64, now: u64) -> bool {
    cached_at <= now && now - cached_at < TTL_SECONDS
}

/// What a lookup of `key` at time `now` hands back, given the cache contents `m`.
pub open spec fn fresh_data<T>(m: Map<Seq<char>, CacheEntry<T>>, key: Seq<char>, now: u64) -> Option<T> {
    if m.contains_key(key) && is_fresh(m[key].cached_at, now) {
        Some(m[key].data)
    } else {
        None
    }
}

/// Seconds since the Unix epoch on the system clock; 0 when the clock
/// reads a time before the epoch. Nothing is promised of the reading.
#[verifier::external_body]
fn clock_seconds() -> u64 {
    std::time::SystemTime::now()
        .duration_since(std::time::UNIX_EPOCH)
        .unwrap_or_default()
        .as_secs()
}

/// `t` is a reading that the system clock gave: a value that
/// `clock_seconds`, the seconds elapsed since the Unix epoch, has returned.
/// Nothing is assumed of which readings occur.
pub closed spec fn is_clock_reading(t: u64) -> bool {
    call_ensures(clock_seconds, (), t)
}

/// The weather cache: a map from text keys to timestamped entries.
pub struct Cache<T> {
    slots: Vec<(String, CacheEntry<T>)>,
}

impl<T> Cache<T> {
    /// The keys of the stored slots, in storage order.
    pub closed spec fn keys(&self) -> Seq<Seq<char>> {
        self.slots@.map_values(|s: (String, CacheEntry<T>)| s.0@)
    }

    /// No key is stored twice.
    #[verifier::type_invariant]
    closed spec fn keys_unique(&self) -> bool {
        forall|i: int, j: int|
            0 <= i < self.slots@.len() && 0 <= j < self.slots@.len() && i != j
                ==> #[trigger] self.slots@[i].0@ != #[trigger] self.slots@[j].0@
    }

    /// Index of the slot that holds `key`.
    closed spec fn slot_of(&self, key: Seq<char>) -> int {
        choose|i: int| 0 <= i < self.slots@.len() && #[trigger] self.slots@[i].0@ == key
    }

    /// The cache contents as a map from key to entry.
    pub closed spec fn contents(&self) -> Map<Seq<char>, CacheEntry<T>> {
        Map::new(
            |k: Seq<char>| exists|i: int| 0 <= i < self.slots@.len() && #[trigger] self.slots@[i].0@ == k,
            |k: Seq<char>| self.slots@[self.slot_of(k)].1,
        )
    }

    proof fn lemma_slot(&self, i: int)
        requires
            self.keys_unique(),
            0 <= i < self.slots@.len(),
        ensures
            self.contents().contains_key(self.slots@[i].0@),
            self.contents()[self.slots@[i].0@] == self.slots@[i].1,
    {
        let k = self.slots@[i].0@;
        assert(self.slots@[i].0@ == k);
        let j = self.slot_of(k);
        assert(self.slots@[j].0@ == k);
    }

    /// An empty cache.
    pub fn new() -> (cache: Self)
        ensures
            cache@ == Map::<Seq<char>, CacheEntry<T>>::empty(),
    {
        let cache = Cache { slots: Vec::new() };
        assert(cache@ =~= Map::<Seq<char>, CacheEntry<T>>::empty());
        cache
    }

    /// Position of the slot holding `key`, if any.
    fn find(&self, key: &String) -> (pos: Option<usize>)
        ensures
            match pos {
                Some(i) => i < self.slots@.len() && self.slots@[i as int].0@ == key@,
                None => !self@.contains_key(key@),
            },
    {
        let mut i: usize = 0;
        while i < self.slots.len()
            invariant
                i <= self.slots@.len(),
                forall|j: int| 0 <= j < i ==> #[trigger] self.slots@[j].0@ != key@,
            decreases self.slots@.len() - i,
        {
            if self.slots[i].0 == *key {
                return Some(i);
            }
            i = i + 1;
        }
        None
    }

    /// Store `entry` under `key`, replacing what was stored there.
    pub fn put(&mut self, key: String, entry: CacheEntry<T>)
        ensures
            final(self)@ == old(self)@.insert(key@, entry),
    {
        proof { use_type_invariant(&*self); }
        let ghost k = key@;
        let ghost e = entry;
        let ghost before = *self;
        let pos = self.find(&key);
        let mut slots: Vec<(String, CacheEntry<T>)> = Vec::new();
        std::mem::swap(&mut slots, &mut self.slots);
        match pos {
            Some(i) => {
                slots.set(i, (key, entry));
                proof {
                    assert forall|a: int, b: int|
                        0 <= a < slots@.len() && 0 <= b < slots@.len() && a != b
                        implies #[trigger] slots@[a].0@ != #[trigger] slots@[b].0@ by {
                        if a != i && b != i {
                            assert(before.slots@[a].0@ != before.slots@[b].0@);
                        } else if a == i {
                            assert(before.slots@[i as int].0@ != before.slots@[b].0@);
                        } else {
                            assert(before.slots@[a].0@ != before.slots@[i as int].0@);
                        }
                    }
                }
            }
            None => {
                slots.push((key, entry));
            }
        }
        self.slots = slots;
        proof {
            use_type_invariant(&*self);
            let idx: int = match pos { Some(i) => i as int, None => before.slots@.len() as int };
            assert(self.slots@[idx].0@ == k);
            assert forall|j: int| 0 <= j < self.slots@.len() && j != idx
                implies #[trigger] self.slots@[j] == before.slots@[j] by {}
            assert forall|kk: Seq<char>| self@.contains_key(kk) == before@.insert(k, e).contains_key(kk) by {
                if kk == k {
                    assert(self.slots@[idx].0@ == kk);
                }
                if before@.contains_key(kk) {
                    let j = before.slot_of(kk);
                    assert(before.slots@[j].0@ == kk);
                    if kk != k {
                        assert(self.slots@[j].0@ == kk);
                    }
                }
                if self@.contains_key(kk) {
                    let j = self.slot_of(kk);
                    assert(self.slots@[j].0@ == kk);
                    if kk != k {
                        assert(before.slots@[j].0@ == kk);
                    }
                }
            }
            assert forall|kk: Seq<char>| #[trigger] self@.contains_key(kk)
                implies self@[kk] == before@.insert(k, e)[kk] by {
                let j = self.slot_of(kk);
                assert(self.slots@[j].0@ == kk);
                self.lemma_slot(j);
                if kk != k {
                    assert(before.slots@[j].0@ == kk);
                    before.lemma_slot(j);
                }
            }
            assert(self@ =~= before@.insert(k, e));
        }
    }

    /// Store `data` under `key`, stamped with the time `now`.
    pub fn insert_at(&mut self, key: &str, data: T, now: u64)
        ensures
            final(self)@ == old(self)@.insert(key@, CacheEntry { cached_at: now, data }),
    {
        self.put(key.to_owned(), CacheEntry { cached_at: now, data });
    }

    /// Store `data` under `key`, stamped with the current clock reading.
    pub fn insert(&mut self, key: &str, data: T)
        ensures
            exists|t: u64| is_clock_reading(t)
                && final(self)@ == old(self)@.insert(key@, CacheEntry { cached_at: t, data }),
    {
        let now = Self::now();
        self.insert_at(key, data, now);
    }

    /// Whether an entry stored at `entry.cached_at` may still be used at `now`.
    pub fn is_valid_at(entry: &CacheEntry<T>, now: u64) -> (valid: bool)
        ensures
            valid == is_fresh(entry.cached_at, now),
    {
        match now.checked_sub(entry.cached_at) {
            Some(elapsed) => elapsed < TTL_SECONDS,
            None => false,
        }
    }

    /// Whether `entry` is still within the TTL at the current clock reading.
    pub fn is_valid(entry: &CacheEntry<T>) -> (valid: bool)
        ensures
            exists|t: u64| is_clock_reading(t) && valid == is_fresh(entry.cached_at, t),
    {
        let now = Self::now();
        Self::is_valid_at(entry, now)
    }

    /// The current clock reading, in seconds since the Unix epoch.
    pub fn now() -> (t: u64)
        ensures
            is_clock_reading(t),
    {
        clock_seconds()
    }

    /// The data stored under `key`, provided it is still fresh at `now`.
    pub fn get_valid_at(&self, key: &str, now: u64) -> (found: Option<&T>)
        ensures
            match fresh_data(self@, key@, now) {
                Some(d) => found matches Some(x) && *x == d,
                None => found is None,
            },
    {
        proof { use_type_invariant(self); }
        let k = key.to_owned();
        match self.find(&k) {
            Some(i) => {
                proof { self.lemma_slot(i as int); }
                let entry = &self.slots[i].1;
                if Self::is_valid_at(entry, now) {
                    Some(&entry.data)
                } else {
                    None
                }
            }
            None => None,
        }
    }

    /// The data stored under `key`, provided it is still fresh at the current
    /// clock reading.
    pub fn get_valid(&self, key: &str) -> (found: Option<&T>)
        ensures
            exists|t: u64| is_clock_reading(t) && match #[trigger] fresh_data(self@, key@, t) {
                Some(d) => found matches Some(x) && *x == d,
                None => found is None,
            },
    {
        let now = Self::now();
        self.get_valid_at(key, now)
    }

    /// The stored key/entry pairs, each key once, in no particular order.
    pub fn entries(&self) -> (pairs: &[(String, CacheEntry<T>)])
        ensures
            forall|i: int| 0 <= i < pairs@.len() ==> self@.contains_key(#[trigger] pairs@[i].0@)
                && self@[pairs@[i].0@] == pairs@[i].1,
            forall|k: Seq<char>| #[trigger] self@.contains_key(k)
                ==> exists|i: int| 0 <= i < pairs@.len() && #[trigger] pairs@[i].0@ == k,
            forall|i: int, j: int| 0 <= i < pairs@.len() && 0 <= j < pairs@.len() && i != j
                ==> #[trigger] pairs@[i].0@ != #[trigger] pairs@[j].0@,
    {
        proof {
            use_type_invariant(self);
            assert forall|i: int| 0 <= i < self.slots@.len() implies self@.contains_key(#[trigger] self.slots@[i].0@)
                && self@[self.slots@[i].0@] == self.slots@[i].1 by {
                self.lemma_slot(i);
            }
        }
        self.slots.as_slice()
    }
}

impl<T> View for Cache<T> {
    type V = Map<Seq<char>, CacheEntry<T>>;

    open spec fn view(&self) -> Map<Seq<char>, CacheEntry<T>> {
        self.contents()
    }
}

/// A value stored at time `written_at` is read back unchanged under the same
/// key exactly while it is fresh: from the moment of the write until the TTL
/// has elapsed; before the write's time and afterwards the lookup misses.
pub proof fn law_read_after_write<T>(
    contents: Map<Seq<char>, CacheEntry<T>>,
    key: Seq<char>,
    data: T,
    written_at: u64,
    read_at: u64,
)
    ensures
        fresh_data(contents.insert(key, CacheEntry { cached_at: written_at, data }), key, read_at)
            == (if written_at <= read_at && read_at - written_at < TTL_SECONDS { Some(data) } else { None }),
{
}

/// Storing under one key leaves what every other key reads unchanged.
pub proof fn law_write_leaves_other_keys<T>(
    contents: Map<Seq<char>, CacheEntry<T>>,
    key: Seq<char>,
    entry: CacheEntry<T>,
    other: Seq<char>,
    read_at: u64,
)
    requires
        other != key,
    ensures
        fresh_data(contents.insert(key, entry), other, read_at) == fresh_data(contents, other, read_at),
{
}

/// A lookup answers with data only while the entry is younger than the TTL
/// at the clock reading it was made at: whatever the contents, a key yields
/// data exactly when an entry is stored under it, stamped at `t0` with
/// `t0 <= now < t0 + TTL_SECONDS`, and then it yields that entry's data.
pub proof fn law_lookup_only_while_fresh<T>(contents: Map<Seq<char>, CacheEntry<T>>, key: Seq<char>, now: u64)
    ensures
        fresh_data(contents, key, now) is Some <==> (contents.contains_key(key)
            && contents[key].cached_at <= now
            && now < contents[key].cached_at + TTL_SECONDS),
        fresh_data(contents, key, now) is Some ==> fresh_data(contents, key, now) == Some(contents[key].data),
{
}

/// An entry is usable at the moment it is stored, and no entry outlives the
/// TTL: once `TTL_SECONDS` have passed since the store it is never fresh again.
pub proof fn law_entry_lifetime(cached_at: u64, now: u64)
    ensures
        is_fresh(cached_at, cached_at),
        now >= cached_at + TTL_SECONDS ==> !is_fresh(cached_at, now),
        now < cached_at ==> !is_fresh(cached_at, now),
{
}

} // verus!
