//! The cache as a mathematical object: its entries, and what each request does to them.
use hyper::HeaderMap;
use vstd::prelude::*;

verus! {

/// What the cache knows of one resource.
#[verifier::ext_equal]
pub enum EntryView {
    /// A cached resource.
    Cached { data: Seq<u8>, headers: HeaderMap, last_accessed: u64, expires: u64 },
    /// A fetch under way, announced on the channel of this number.
    Fetching(u64),
}

impl EntryView {
    /// The memory that the entry accounts for.
    pub open spec fn size(self) -> nat {
        match self {
            EntryView::Cached { data, .. } => data.len(),
            EntryView::Fetching(_) => 0,
        }
    }

    /// When a cached resource was last accessed.
    pub open spec fn last_accessed(self) -> Option<u64> {
        match self {
            EntryView::Cached { last_accessed, .. } => Some(last_accessed),
            EntryView::Fetching(_) => None,
        }
    }

    /// Whether the entry is cached and was not accessed later than `now`.
    pub open spec fn accessed_by(self, now: u64) -> bool {
        self.last_accessed() matches Some(time) && time <= now
    }
}

/// The sizes of all entries, added up.
pub open spec fn memory_of(entries: Map<u64, EntryView>) -> nat
    decreases entries.dom().len(),
{
    if entries.dom().finite() && entries.dom().len() > 0 {
        let key = entries.dom().choose();
        entries[key].size() + memory_of(entries.remove(key))
    } else {
        0
    }
}

/// Whether `key` may be the next to be evicted: the least recently used of the cached entries, or
/// any entry at all while no cached entry was accessed by now.
pub open spec fn is_victim(entries: Map<u64, EntryView>, now: u64, key: u64) -> bool {
    &&& entries.contains_key(key)
    &&& (exists|k: u64| #[trigger] entries.contains_key(k) && entries[k].accessed_by(now)) ==> {
        &&& entries[key].accessed_by(now)
        &&& forall|k: u64| #[trigger]
            entries.contains_key(k) && entries[k] is Cached ==> entries[key]->last_accessed
                <= entries[k]->last_accessed
    }
}

/// The entries that are left once those under the keys of `run` are gone.
pub open spec fn without(entries: Map<u64, EntryView>, run: Seq<u64>) -> Map<u64, EntryView>
    decreases run.len(),
{
    if run.len() == 0 {
        entries
    } else {
        without(entries, run.drop_last()).remove(run.last())
    }
}

/// Whether the keys of `run` may be evicted one after the other.
pub open spec fn is_eviction_run(entries: Map<u64, EntryView>, now: u64, run: Seq<u64>) -> bool
    decreases run.len(),
{
    run.len() > 0 ==> {
        &&& is_eviction_run(entries, now, run.drop_last())
        &&& is_victim(without(entries, run.drop_last()), now, run.last())
    }
}

/// What a request finds.
#[verifier::ext_equal]
pub enum LookupView {
    /// The resource: its bytes, its headers and when it expires.
    Hit(Seq<u8>, HeaderMap, u64),
    /// Another request is fetching it; the result comes on the channel of this number.
    Wait(u64),
    /// This request has to fetch it, and to report the outcome under this key.
    Fetch(u64),
}

/// The state of the cache.
#[verifier::ext_equal]
pub struct CacheView {
    /// The entries, by key.
    pub entries: Map<u64, EntryView>,
    /// Currently used memory.
    pub used: int,
    /// Maximum allowed size in bytes.
    pub limit: int,
    /// The counters that are reported as hits and misses.
    pub hits: int,
    pub misses: int,
    /// The key of each resource.
    pub keys: spec_fn(Seq<char>) -> u64,
}

impl CacheView {
    /// The accounting is right and the limit is kept.
    pub open spec fn valid(self) -> bool {
        &&& self.entries.dom().finite()
        &&& self.used == memory_of(self.entries)
        &&& self.used <= self.limit
    }

    /// The memory that the entry under `key` accounts for; none if there is no such entry.
    pub open spec fn size_at(self, key: u64) -> int {
        if self.entries.contains_key(key) {
            self.entries[key].size() as int
        } else {
            0
        }
    }

    /// The cache with `entry` under `key`.
    pub open spec fn with_entry(self, key: u64, entry: EntryView) -> CacheView {
        CacheView {
            entries: self.entries.insert(key, entry),
            used: self.used - self.size_at(key) + entry.size(),
            ..self
        }
    }

    /// The cache with nothing under `key`.
    pub open spec fn discard(self, key: u64) -> CacheView {
        CacheView {
            entries: self.entries.remove(key),
            used: self.used - self.size_at(key),
            ..self
        }
    }

    /// What a request for the resource under `key` finds at the time `now`.
    pub open spec fn answer(self, key: u64, now: u64) -> LookupView {
        if self.entries.contains_key(key) {
            match self.entries[key] {
                EntryView::Cached { data, headers, expires, .. } => if now < expires {
                    LookupView::Hit(data, headers, expires)
                } else {
                    LookupView::Fetch(key)
                },
                EntryView::Fetching(watcher) => LookupView::Wait(watcher),
            }
        } else {
            LookupView::Fetch(key)
        }
    }

    /// The cache after that request: a hit counts as an access, and a fetch is announced on the
    /// channel `watcher`.
    pub open spec fn after_lookup(self, key: u64, watcher: u64, now: u64) -> CacheView {
        match self.answer(key, now) {
            LookupView::Hit(data, headers, expires) => self.with_entry(
                key,
                EntryView::Cached { data, headers, last_accessed: now, expires },
            ),
            LookupView::Wait(_) => self,
            LookupView::Fetch(_) => self.with_entry(key, EntryView::Fetching(watcher)),
        }
    }

    /// The cache once the entries under the keys of `run` are gone.
    pub open spec fn after_run(self, run: Seq<u64>) -> CacheView {
        CacheView {
            entries: without(self.entries, run),
            used: memory_of(without(self.entries, run)) as int,
            ..self
        }
    }

    /// Whether evicting the keys of `run` is what making room for `bytes` takes: victims in turn,
    /// until there is room, and none after that.
    pub open spec fn is_fitting_run(self, bytes: int, now: u64, run: Seq<u64>) -> bool {
        &&& is_eviction_run(self.entries, now, run)
        &&& self.after_run(run).used + bytes <= self.limit
        &&& run.len() > 0 ==> self.after_run(run.drop_last()).used + bytes > self.limit
    }

    /// Whether `after` is this cache once room was made for `bytes`.
    pub open spec fn makes_fit(self, bytes: int, now: u64, after: CacheView) -> bool {
        exists|run: Seq<u64>| #[trigger]
            self.is_fitting_run(bytes, now, run) && after == self.after_run(run)
    }

    /// Whether `after` is this cache once a fetched resource was filed under `key`.
    pub open spec fn stores(
        self,
        key: u64,
        data: Seq<u8>,
        headers: HeaderMap,
        expires: u64,
        now: u64,
        after: CacheView,
    ) -> bool {
        exists|fitted: CacheView| #[trigger]
            self.makes_fit(data.len() as int, now, fitted) && after == fitted.with_entry(
                key,
                EntryView::Cached { data, headers, last_accessed: now, expires },
            )
    }
}

/// Taking out one entry takes its size off the sum.
pub(crate) proof fn lemma_memory_remove(entries: Map<u64, EntryView>, key: u64)
    requires
        entries.dom().finite(),
        entries.contains_key(key),
    ensures
        memory_of(entries) == entries[key].size() + memory_of(entries.remove(key)),
    decreases entries.dom().len(),
{
    let first = entries.dom().choose();
    assert(entries.dom().contains(first));
    if first != key {
        lemma_memory_remove(entries.remove(first), key);
        lemma_memory_remove(entries.remove(key), first);
        assert(entries.remove(first).remove(key) =~= entries.remove(key).remove(first));
    }
}

/// Filing one entry replaces the size of what was there with its own.
proof fn lemma_memory_insert(entries: Map<u64, EntryView>, key: u64, entry: EntryView)
    requires
        entries.dom().finite(),
    ensures
        memory_of(entries.insert(key, entry)) == entry.size() + memory_of(entries.remove(key)),
{
    lemma_memory_remove(entries.insert(key, entry), key);
    assert(entries.insert(key, entry).remove(key) =~= entries.remove(key));
}

/// Filing and discarding keep the accounting right.
pub(crate) proof fn lemma_accounting(state: CacheView, key: u64, entry: EntryView)
    requires
        state.entries.dom().finite(),
        state.used == memory_of(state.entries),
    ensures
        state.with_entry(key, entry).entries.dom().finite(),
        state.with_entry(key, entry).used == memory_of(state.with_entry(key, entry).entries),
        state.discard(key).entries.dom().finite(),
        state.discard(key).used == memory_of(state.discard(key).entries),
        0 <= state.size_at(key) <= state.used,
{
    lemma_memory_insert(state.entries, key, entry);
    if state.entries.contains_key(key) {
        lemma_memory_remove(state.entries, key);
    } else {
        assert(state.entries.remove(key) =~= state.entries);
    }
}

} // verus!
