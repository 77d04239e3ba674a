//! TLRU cache: a least-recently-used cache whose entries also expire.
use crate::content::{byte_count, bytes_of, share_bytes, share_headers, CacheError, CacheResult};
use crate::laws::law_room_is_made_only_if_needed;
use crate::model::{
    is_eviction_run, is_victim, lemma_accounting, CacheView, EntryView, LookupView,
};
use crate::store::{
    empty_store, entries_of, entry_count, find, hash_resource, key_in, put, take, walk, CacheEntry,
    Slot,
};
use bytes::Bytes;
use dashmap::DashMap;
use hyper::HeaderMap;
use std::sync::Arc;
use vstd::prelude::*;

verus! {

/// What a request finds in the cache.
pub enum Lookup {
    /// The resource: its bytes, its headers and when it expires.
    Hit(Bytes, Arc<HeaderMap>, u64),
    /// Another request is fetching it; the result comes on the channel of this number.
    Wait(u64),
    /// This request has to fetch it, and to report the outcome under this key.
    Fetch(u64),
}

impl View for Lookup {
    type V = LookupView;

    open spec fn view(&self) -> LookupView {
        match *self {
            Lookup::Hit(data, headers, expires) => LookupView::Hit(
                bytes_of(data),
                *headers,
                expires,
            ),
            Lookup::Wait(watcher) => LookupView::Wait(watcher),
            Lookup::Fetch(key) => LookupView::Fetch(key),
        }
    }
}

/// How a fetch ended.
pub enum FetchOutcome {
    /// With this result.
    Finished(CacheResult),
    /// Without one: the task that ran it panicked or was cancelled.
    Aborted,
}

impl FetchOutcome {
    /// What the request that started the fetch is told.
    pub open spec fn result(self) -> CacheResult {
        match self {
            FetchOutcome::Finished(result) => result,
            FetchOutcome::Aborted => Err(CacheError::Unknown),
        }
    }
}

/// The cache.
pub struct TlruCache {
    /// Maximum allowed size in bytes.
    max_size: usize,
    /// Currently used memory.
    current_size: usize,
    cache: DashMap<u64, CacheEntry>,
    // diagnostics; no operation counts yet
    hits: usize,
    misses: usize,
}

impl View for TlruCache {
    type V = CacheView;

    closed spec fn view(&self) -> CacheView {
        CacheView {
            entries: entries_of(self.cache).map_values(|entry: CacheEntry| entry@),
            used: self.current_size as int,
            limit: self.max_size as int,
            hits: self.hits as int,
            misses: self.misses as int,
            keys: |resource: Seq<char>| key_in(self.cache, resource),
        }
    }
}

/// What the cache shows is what its store holds: the same keys, under each the entry with the
/// bytes, headers and times that are stored there; and a resource's key is the store's hash of the
/// resource's whole text, so that two resources share a key only where that hash is the same.
pub proof fn law_cache_shows_its_store(
    cache: &TlruCache,
    key: u64,
    resource: Seq<char>,
    other: Seq<char>,
)
    ensures
        cache@.entries.contains_key(key) <==> entries_of(cache.store()).contains_key(key),
        cache@.entries.contains_key(key) ==> match entries_of(cache.store())[key] {
            CacheEntry::Cached { data, headers, last_accessed, expires } => cache@.entries[key]
                == (EntryView::Cached {
                data: bytes_of(data),
                headers: *headers,
                last_accessed,
                expires,
            }),
            CacheEntry::Fetching(watcher) => cache@.entries[key] == EntryView::Fetching(watcher),
        },
        (cache@.keys)(resource) == key_in(cache.store(), resource),
        (cache@.keys)(resource) == (cache@.keys)(other) <==> key_in(cache.store(), resource)
            == key_in(cache.store(), other),
{
}

/// Whether the slot at `chosen` is the one to evict: the last walked of those with the oldest
/// access, or the first of all if no slot was accessed by now.
pub open spec fn is_chosen(slots: Seq<Slot>, now: u64, chosen: int) -> bool {
    if exists|i: int| 0 <= i < slots.len() && (#[trigger] slots[i]).accessed_by(now) {
        &&& slots[chosen].accessed_by(now)
        &&& forall|i: int|
            0 <= i < slots.len() && (#[trigger] slots[i]).last_accessed is Some ==> {
                ||| slots[chosen].last_accessed->0 < slots[i].last_accessed->0
                ||| slots[chosen].last_accessed == slots[i].last_accessed && i <= chosen
            }
    } else {
        chosen == 0
    }
}

/// Picks the slot to evict.
pub fn choose_victim(slots: &Vec<Slot>, now: u64) -> (chosen: usize)
    requires
        slots.len() > 0,
    ensures
        chosen < slots.len(),
        is_chosen(slots@, now, chosen as int),
        forall|i: int|
            0 <= i < slots.len() && (#[trigger] slots@[i]).last_accessed is Some
                && slots@[i].last_accessed->0 <= now ==> {
                &&& slots@[chosen as int].last_accessed is Some
                &&& slots@[chosen as int].last_accessed->0 <= slots@[i].last_accessed->0
                &&& slots@[chosen as int].last_accessed == slots@[i].last_accessed ==> i <= chosen
            },
        (forall|i: int|
            0 <= i < slots.len() && (#[trigger] slots@[i]).last_accessed is Some
                ==> slots@[i].last_accessed->0 > now) ==> chosen == 0,
{
    let mut lowest: usize = 0;
    let mut lowest_time: u64 = now;
    let mut index: usize = 0;
    while index < slots.len()
        invariant
            index <= slots.len(),
            lowest < slots.len(),
            lowest_time <= now,
            ({
                ||| {
                    &&& lowest == 0 && lowest_time == now
                    &&& forall|i: int| 0 <= i < index ==> !(#[trigger] slots[i]).accessed_by(now)
                }
                ||| {
                    &&& lowest < index && slots[lowest as int].last_accessed == Some(lowest_time)
                    &&& forall|i: int|
                        0 <= i < index && (#[trigger] slots[i]).last_accessed is Some ==> {
                            ||| lowest_time < slots[i].last_accessed->0
                            ||| lowest_time == slots[i].last_accessed->0 && i <= lowest
                        }
                }
            }),
        decreases slots.len() - index,
    {
        if let Some(time) = slots[index].last_accessed {
            if time <= lowest_time {
                lowest = index;
                lowest_time = time;
            }
        }
        index = index + 1;
    }
    lowest
}

impl TlruCache {
    /// The accounting is right and the limit is kept.
    pub open spec fn wf(&self) -> bool {
        self@.valid()
    }

    /// The map that holds the entries.
    pub closed spec fn store(&self) -> DashMap<u64, CacheEntry> {
        self.cache
    }

    /// An empty cache that holds at most `max_size` bytes.
    pub fn new(max_size: usize) -> (cache: TlruCache)
        ensures
            cache.wf(),
            cache@.entries.is_empty(),
            cache@.used == 0,
            cache@.limit == max_size,
            cache@.hits == 0,
            cache@.misses == 0,
            entries_of(cache.store()).is_empty(),
    {
        let cache = TlruCache {
            max_size,
            current_size: 0,
            cache: empty_store(),
            hits: 0,
            misses: 0,
        };
        assert(cache@.entries.dom() =~= Set::<u64>::empty());
        cache
    }

    /// Evict one entry from the cache, returning how many bytes were freed
    pub fn evict_one(&mut self, now: u64) -> (freed: usize)
        requires
            old(self).wf(),
            !old(self)@.entries.is_empty(),
        ensures
            final(self).wf(),
            exists|key: u64| #[trigger]
                is_victim(old(self)@.entries, now, key) && final(self)@ == old(self)@.discard(key)
                    && freed == old(self)@.size_at(key),
            exists|key: u64| #[trigger]
                old(self)@.entries.contains_key(key) && final(self)@.entries
                    == old(self)@.entries.remove(key) && freed == (match old(self)@.entries[key] {
                    EntryView::Cached { data, .. } => data.len(),
                    EntryView::Fetching(_) => 0,
                }) && (forall|k: u64| #[trigger]
                    old(self)@.entries.contains_key(k) && old(self)@.entries[k] is Cached
                        && old(self)@.entries[k]->last_accessed <= now
                        ==> old(self)@.entries[key] is Cached
                        && old(self)@.entries[key]->last_accessed
                        <= old(self)@.entries[k]->last_accessed),
            final(self)@.used == old(self)@.used - freed,
            final(self)@.limit == old(self)@.limit,
            final(self)@.hits == old(self)@.hits,
            final(self)@.misses == old(self)@.misses,
            final(self)@.keys == old(self)@.keys,
    {
        let slots = walk(&self.cache);
        proof {
            let some_key = self@.entries.dom().choose();
            assert(entries_of(self.cache).contains_key(some_key));
        }
        let chosen = choose_victim(&slots, now);
        let key = slots[chosen].key;
        let freed = slots[chosen].size;
        proof {
            lemma_victim(self, slots@, now, chosen as int);
        }
        self.discard(key);
        assert(old(self)@.entries.contains_key(key));
        freed
    }

    /// How many bytes have to go to make room for this many; nothing while more than enough are
    /// free.
    pub fn shortfall(&self, bytes: usize) -> (shortfall: Option<usize>)
        requires
            self.wf(),
        ensures
            match shortfall {
                Some(count) => count == self@.used + bytes - self@.limit,
                None => self@.used + bytes < self@.limit,
            },
    {
        let room = self.max_size - self.current_size;
        if bytes >= room {
            Some(bytes - room)
        } else {
            None
        }
    }

    /// Evict entries until there is room for required number of bytes
    pub fn make_fit(&mut self, bytes: usize, now: u64)
        requires
            old(self).wf(),
            bytes <= old(self)@.limit,
        ensures
            final(self).wf(),
            old(self)@.makes_fit(bytes as int, now, final(self)@),
            old(self)@.used + bytes <= old(self)@.limit ==> final(self)@ == old(self)@,
            final(self)@.used + bytes <= final(self)@.limit,
            final(self)@.entries.submap_of(old(self)@.entries),
            final(self)@.limit == old(self)@.limit,
            final(self)@.hits == old(self)@.hits,
            final(self)@.misses == old(self)@.misses,
            final(self)@.keys == old(self)@.keys,
    {
        let ghost mut run: Seq<u64> = Seq::empty();
        assert(self@ == self@.after_run(run));
        if let Some(shortfall) = self.shortfall(bytes) {
            let mut to_remove: usize = shortfall;
            while to_remove > 0
                invariant
                    old(self).wf(),
                    self.wf(),
                    self.max_size == old(self).max_size,
                    bytes <= self.max_size,
                    self@ == old(self)@.after_run(run),
                    is_eviction_run(old(self)@.entries, now, run),
                    to_remove > 0 ==> to_remove == self@.used + bytes - self@.limit,
                    to_remove == 0 ==> self@.used + bytes <= self@.limit,
                    run.len() > 0 ==> {
                        &&& old(self)@.after_run(run.drop_last()).used + bytes > self@.limit
                        &&& old(self)@.used + bytes > self@.limit
                    },
                decreases self@.entries.dom().len(),
            {
                let ghost before = self@;
                let freed = self.evict_one(now);
                proof {
                    let key = choose|key: u64| #[trigger]
                        is_victim(before.entries, now, key) && self@ == before.discard(key)
                            && freed == before.size_at(key);
                    assert(run.push(key).drop_last() =~= run);
                    if run.len() == 0 {
                        assert(before == old(self)@);
                    }
                    run = run.push(key);
                }
                to_remove = if freed >= to_remove { 0 } else { to_remove - freed };
            }
        }
        assert(old(self)@.is_fitting_run(bytes as int, now, run));
        proof {
            law_room_is_made_only_if_needed(old(self)@, bytes as int, now, self@);
        }
    }

    /// Whether a resource of this many bytes can be held at all.
    pub fn can_hold(&self, bytes: usize) -> (fits: bool)
        ensures
            fits == (bytes <= self@.limit),
    {
        bytes <= self.max_size
    }

    /// Whether the cache can take this outcome of a fetch: a resource that it can hold, or none.
    pub fn can_finish(&self, outcome: &FetchOutcome) -> (fits: bool)
        ensures
            fits == (outcome.result() matches Ok(content) ==> bytes_of(content.0).len()
                <= self@.limit),
            match *outcome {
                FetchOutcome::Finished(Ok(content)) => fits == (bytes_of(content.0).len()
                    <= self@.limit),
                FetchOutcome::Finished(Err(_)) => fits,
                FetchOutcome::Aborted => fits,
            },
    {
        match outcome {
            FetchOutcome::Finished(Ok(content)) => self.can_hold(byte_count(&content.0)),
            _ => true,
        }
    }

    /// Files `entry` under `key` and accounts for it.
    fn file(&mut self, key: u64, entry: CacheEntry, size: usize)
        requires
            old(self).wf(),
            old(self)@.used - old(self)@.size_at(key) + size <= old(self)@.limit,
            size == entry@.size(),
        ensures
            final(self).wf(),
            final(self)@ == old(self)@.with_entry(key, entry@),
            final(self)@.entries == old(self)@.entries.insert(key, entry@),
    {
        proof {
            lemma_accounting(self@, key, entry@);
        }
        let freed = match put(&mut self.cache, key, entry) {
            Some(previous) => previous.slot(key).size,
            None => 0,
        };
        self.current_size = self.current_size - freed + size;
        proof {
            assert(self@.entries =~= old(self)@.entries.insert(key, entry@));
            assert(self@.keys =~= old(self)@.keys);
            assert(self@ == old(self)@.with_entry(key, entry@));
        }
    }

    /// Takes out what is under `key`, if anything.
    fn discard(&mut self, key: u64)
        requires
            old(self).wf(),
        ensures
            final(self).wf(),
            final(self)@ == old(self)@.discard(key),
            final(self)@.entries == old(self)@.entries.remove(key),
    {
        proof {
            lemma_accounting(self@, key, EntryView::Fetching(0));
        }
        let freed = match take(&mut self.cache, key) {
            Some(previous) => previous.slot(key).size,
            None => 0,
        };
        self.current_size = self.current_size - freed;
        proof {
            assert(self@.entries =~= old(self)@.entries.remove(key));
            assert(self@.keys =~= old(self)@.keys);
            assert(self@ == old(self)@.discard(key));
        }
    }

    /// Looks for the resource under `key`. If it is neither in the cache and fresh nor being
    /// fetched, the caller has to fetch it, and announce the result on the channel `watcher`.
    pub fn lookup(&mut self, key: u64, watcher: u64, now: u64) -> (found: Lookup)
        requires
            old(self).wf(),
        ensures
            final(self).wf(),
            found@ == old(self)@.answer(key, now),
            final(self)@ == old(self)@.after_lookup(key, watcher, now),
            match old(self)@.entries.get(key) {
                Some(EntryView::Cached { data, headers, last_accessed: _, expires }) => if now
                    < expires {
                    &&& found is Hit
                    &&& bytes_of(found->Hit_0) == data
                    &&& *found->Hit_1 == headers
                    &&& found->Hit_2 == expires
                    &&& final(self)@.entries == old(self)@.entries.insert(
                        key,
                        EntryView::Cached { data, headers, last_accessed: now, expires },
                    )
                    &&& final(self)@.used == old(self)@.used
                } else {
                    &&& found == Lookup::Fetch(key)
                    &&& final(self)@.entries == old(self)@.entries.insert(
                        key,
                        EntryView::Fetching(watcher),
                    )
                    &&& final(self)@.used == old(self)@.used - data.len()
                },
                Some(EntryView::Fetching(other)) => {
                    &&& found == Lookup::Wait(other)
                    &&& final(self)@ == old(self)@
                },
                None => {
                    &&& found == Lookup::Fetch(key)
                    &&& final(self)@.entries == old(self)@.entries.insert(
                        key,
                        EntryView::Fetching(watcher),
                    )
                    &&& final(self)@.used == old(self)@.used
                },
            },
            final(self)@.limit == old(self)@.limit,
            final(self)@.hits == old(self)@.hits,
            final(self)@.misses == old(self)@.misses,
            final(self)@.keys == old(self)@.keys,
    {
        proof {
            lemma_accounting(self@, key, EntryView::Fetching(watcher));
        }
        match find(&self.cache, key) {
            Some(CacheEntry::Cached { data, headers, expires, .. }) => if expires <= now {
                self.file(key, CacheEntry::Fetching(watcher), 0);
                Lookup::Fetch(key)
            } else {
                let entry = CacheEntry::Cached {
                    data: share_bytes(&data),
                    headers: share_headers(&headers),
                    last_accessed: now,
                    expires,
                };
                let size = byte_count(&data);
                self.file(key, entry, size);
                Lookup::Hit(data, headers, expires)
            },
            Some(CacheEntry::Fetching(other)) => Lookup::Wait(other),
            None => {
                self.file(key, CacheEntry::Fetching(watcher), 0);
                Lookup::Fetch(key)
            },
        }
    }

    /// Looks for `resource`: [`TlruCache::lookup`] under the resource's key, which is the store's
    /// hash of the resource's whole text.
    pub fn get_or_fetch(&mut self, resource: &str, watcher: u64, now: u64) -> (found: Lookup)
        requires
            old(self).wf(),
        ensures
            final(self).wf(),
            found@ == old(self)@.answer((old(self)@.keys)(resource@), now),
            final(self)@ == old(self)@.after_lookup((old(self)@.keys)(resource@), watcher, now),
            found@ == old(self)@.answer(key_in(old(self).store(), resource@), now),
            final(self)@ == old(self)@.after_lookup(
                key_in(old(self).store(), resource@),
                watcher,
                now,
            ),
            found matches Lookup::Fetch(key) ==> key == key_in(old(self).store(), resource@),
            forall|other: u64|
                other != key_in(old(self).store(), resource@)
                    ==> #[trigger] final(self)@.entries.get(other) == old(self)@.entries.get(other),
            forall|text: Seq<char>| #[trigger]
                key_in(final(self).store(), text) == key_in(old(self).store(), text),
    {
        let key = hash_resource(&self.cache, resource);
        let found = self.lookup(key, watcher, now);
        assert forall|text: Seq<char>| #[trigger]
            key_in(self.store(), text) == key_in(old(self).store(), text) by {
            assert((self@.keys)(text) == (old(self)@.keys)(text));
        }
        found
    }

    /// Takes the outcome of the fetch for `key`: a resource goes into the cache, a failure leaves
    /// nothing behind. Returns what the request that started the fetch is told.
    pub fn finish_fetch(&mut self, key: u64, outcome: FetchOutcome, now: u64) -> (result:
        CacheResult)
        requires
            old(self).wf(),
            outcome.result() matches Ok(content) ==> bytes_of(content.0).len()
                <= old(self)@.limit,
        ensures
            final(self).wf(),
            result == outcome.result(),
            match result {
                Ok(content) => old(self)@.stores(
                    key,
                    bytes_of(content.0),
                    *content.1,
                    content.2,
                    now,
                    final(self)@,
                ),
                Err(_) => final(self)@ == old(self)@.discard(key),
            },
            result matches Ok(content) ==> (old(self)@.used + bytes_of(content.0).len()
                <= old(self)@.limit ==> final(self)@ == old(self)@.with_entry(
                key,
                (EntryView::Cached {
                    data: bytes_of(content.0),
                    headers: *content.1,
                    last_accessed: now,
                    expires: content.2,
                }),
            )),
            match outcome {
                FetchOutcome::Finished(fetched) => result == fetched,
                FetchOutcome::Aborted => result == CacheResult::Err(CacheError::Unknown),
            },
            match result {
                Ok(content) => {
                    let entry = EntryView::Cached {
                        data: bytes_of(content.0),
                        headers: *content.1,
                        last_accessed: now,
                        expires: content.2,
                    };
                    &&& final(self)@.entries.get(key) == Some(entry)
                    &&& final(self)@.entries.remove(key).submap_of(old(self)@.entries.remove(key))
                    &&& old(self)@.used + bytes_of(content.0).len() <= old(self)@.limit
                        ==> final(self)@.entries == old(self)@.entries.insert(key, entry)
                },
                Err(_) => final(self)@.entries == old(self)@.entries.remove(key),
            },
            final(self)@.limit == old(self)@.limit,
            final(self)@.hits == old(self)@.hits,
            final(self)@.misses == old(self)@.misses,
            final(self)@.keys == old(self)@.keys,
    {
        match outcome {
            FetchOutcome::Finished(Ok((data, headers, expires))) => {
                let size = byte_count(&data);
                self.make_fit(size, now);
                let entry = CacheEntry::Cached {
                    data: share_bytes(&data),
                    headers: share_headers(&headers),
                    last_accessed: now,
                    expires,
                };
                self.file(key, entry, size);
                Ok((data, headers, expires))
            },
            FetchOutcome::Finished(Err(error)) => {
                self.discard(key);
                Err(error)
            },
            FetchOutcome::Aborted => {
                self.discard(key);
                Err(CacheError::Unknown)
            },
        }
    }

    /// The number of entries, hits, misses, the memory used and the memory limit.
    pub fn diagnostics(&self) -> (report: (usize, usize, usize, usize, usize))
        requires
            self.wf(),
        ensures
            report.0 == self@.entries.len(),
            report.1 == self@.hits,
            report.2 == self@.misses,
            report.3 == self@.used,
            report.4 == self@.limit,
    {
        assert(self@.entries.dom() =~= entries_of(self.cache).dom());
        (entry_count(&self.cache), self.hits, self.misses, self.current_size, self.max_size)
    }
}

/// The chosen slot of a walk is a victim.
proof fn lemma_victim(cache: &TlruCache, slots: Seq<Slot>, now: u64, chosen: int)
    requires
        0 <= chosen < slots.len(),
        is_chosen(slots, now, chosen),
        forall|i: int|
            0 <= i < slots.len() ==> entries_of(cache.cache).contains_key(#[trigger] slots[i].key)
                && slots[i].describes(slots[i].key, entries_of(cache.cache)[slots[i].key]@),
        forall|key: u64| #[trigger]
            entries_of(cache.cache).contains_key(key) ==> exists|i: int|
                0 <= i < slots.len() && #[trigger] slots[i].key == key,
    ensures
        is_victim(cache@.entries, now, slots[chosen].key),
        slots[chosen].size == cache@.size_at(slots[chosen].key),
{
    let entries = cache@.entries;
    let key = slots[chosen].key;
    assert(entries_of(cache.cache).contains_key(key));
    assert(slots[chosen].describes(key, entries[key]));
    if exists|k: u64| #[trigger] entries.contains_key(k) && entries[k].accessed_by(now) {
        let k = choose|k: u64| #[trigger] entries.contains_key(k) && entries[k].accessed_by(now);
        let at = choose|i: int| 0 <= i < slots.len() && #[trigger] slots[i].key == k;
        assert(slots[at].last_accessed is Some);
        assert forall|k: u64| #[trigger]
            entries.contains_key(k) && entries[k] is Cached implies entries[key]->last_accessed
            <= entries[k]->last_accessed by {
            let at = choose|i: int| 0 <= i < slots.len() && #[trigger] slots[i].key == k;
            assert(slots[at].last_accessed == Some(entries[k]->last_accessed));
        }
    }
}

} // verus!
