//! The concurrent map that holds the cache's entries, and what is known of it.
use crate::content::{byte_count, bytes_of, share_bytes, share_headers};
use crate::model::EntryView;
use bytes::Bytes;
use dashmap::DashMap;
use hyper::HeaderMap;
use std::hash::BuildHasher;
use std::sync::Arc;
use vstd::prelude::*;

verus! {

/// `dashmap::DashMap`. Every change to it here goes through a `&mut` borrow.
#[verifier::external_type_specification]
#[verifier::external_body]
#[verifier::reject_recursive_types(K)]
#[verifier::reject_recursive_types(V)]
#[verifier::reject_recursive_types(S)]
pub struct ExDashMap<K, V, S>(dashmap::DashMap<K, V, S>);

/// What the cache knows of one resource.
pub enum CacheEntry {
    /// The resource is in the cache.
    Cached {
        /// The cached bytes
        data: Bytes,
        /// The headers that came with them
        headers: Arc<HeaderMap>,
        /// Time last accessed
        last_accessed: u64,
        /// Expiration time
        expires: u64,
    },
    /// The resource is being fetched; the number names the channel that announces the result.
    Fetching(u64),
}

impl View for CacheEntry {
    type V = EntryView;

    open spec fn view(&self) -> EntryView {
        match *self {
            CacheEntry::Cached { data, headers, last_accessed, expires } => EntryView::Cached {
                data: bytes_of(data),
                headers: *headers,
                last_accessed,
                expires,
            },
            CacheEntry::Fetching(watcher) => EntryView::Fetching(watcher),
        }
    }
}

/// What eviction needs to know of an entry.
pub struct Slot {
    /// The entry's key
    pub key: u64,
    /// Time last accessed, if the entry is cached
    pub last_accessed: Option<u64>,
    /// The number of bytes that go with the entry
    pub size: usize,
}

impl Slot {
    /// Whether the entry is cached and was not accessed later than `now`.
    pub open spec fn accessed_by(self, now: u64) -> bool {
        self.last_accessed matches Some(time) && time <= now
    }

    /// Says that the slot describes `entry`, filed under `key`.
    pub open spec fn describes(self, key: u64, entry: EntryView) -> bool {
        &&& self.key == key
        &&& self.last_accessed == entry.last_accessed()
        &&& self.size == entry.size()
    }
}

impl CacheEntry {
    /// Another entry with the same contents.
    pub(crate) fn share(&self) -> (copy: CacheEntry)
        ensures
            copy@ == self@,
    {
        match self {
            CacheEntry::Cached { data, headers, last_accessed, expires } => CacheEntry::Cached {
                data: share_bytes(data),
                headers: share_headers(headers),
                last_accessed: *last_accessed,
                expires: *expires,
            },
            CacheEntry::Fetching(watcher) => CacheEntry::Fetching(*watcher),
        }
    }

    /// What eviction needs to know of this entry.
    pub(crate) fn slot(&self, key: u64) -> (slot: Slot)
        ensures
            slot.describes(key, self@),
            slot.key == key,
            match *self {
                CacheEntry::Cached { data, last_accessed, .. } => {
                    &&& slot.last_accessed == Some(last_accessed)
                    &&& slot.size == bytes_of(data).len()
                },
                CacheEntry::Fetching(_) => slot.last_accessed is None && slot.size == 0,
            },
    {
        match self {
            CacheEntry::Cached { data, last_accessed, .. } => Slot {
                key,
                last_accessed: Some(*last_accessed),
                size: byte_count(data),
            },
            CacheEntry::Fetching(_) => Slot { key, last_accessed: None, size: 0 },
        }
    }
}

/// The entries that a store holds, by key.
pub uninterp spec fn entries_of(store: DashMap<u64, CacheEntry>) -> Map<u64, CacheEntry>;

/// The key of a resource in a store: the hash of the resource's text, computed with the hasher
/// that the store was made with. Stores made apart differ in it.
pub uninterp spec fn key_in(store: DashMap<u64, CacheEntry>, resource: Seq<char>) -> u64;

/// `DashMap::default`: a store without entries.
#[verifier::external_body]
pub(crate) fn empty_store() -> (store: DashMap<u64, CacheEntry>)
    ensures
        entries_of(store).is_empty(),
{
    DashMap::default()
}

/// `BuildHasher::hash_one` of the hasher that `DashMap::hasher` gives, which stays the store's
/// from its making on. A hasher builder makes the same hasher every time, so that one store gives
/// one text one key.
#[verifier::external_body]
pub(crate) fn hash_resource(store: &DashMap<u64, CacheEntry>, resource: &str) -> (key: u64)
    ensures
        key == key_in(*store, resource@),
{
    store.hasher().hash_one(resource)
}

/// `DashMap::view`: shows the entry under `key`, if there is one, to a closure that copies it.
#[verifier::external_body]
pub(crate) fn find(store: &DashMap<u64, CacheEntry>, key: u64) -> (found: Option<CacheEntry>)
    ensures
        found is Some <==> entries_of(*store).contains_key(key),
        found matches Some(entry) ==> entry@ == entries_of(*store)[key]@,
{
    store.view(&key, |_key, entry| entry.share())
}

/// `DashMap::insert`: files `entry` under `key` and returns what was there.
#[verifier::external_body]
pub(crate) fn put(
    store: &mut DashMap<u64, CacheEntry>,
    key: u64,
    entry: CacheEntry,
) -> (previous: Option<CacheEntry>)
    ensures
        entries_of(*final(store)) == entries_of(*old(store)).insert(key, entry),
        previous == entries_of(*old(store)).get(key),
        forall|resource: Seq<char>|
            key_in(*final(store), resource) == key_in(*old(store), resource),
{
    store.insert(key, entry)
}

/// `DashMap::remove`: takes out the entry under `key`, if there is one, and returns it.
#[verifier::external_body]
pub(crate) fn take(store: &mut DashMap<u64, CacheEntry>, key: u64) -> (previous: Option<
    CacheEntry,
>)
    ensures
        entries_of(*final(store)) == entries_of(*old(store)).remove(key),
        previous == entries_of(*old(store)).get(key),
        forall|resource: Seq<char>|
            key_in(*final(store), resource) == key_in(*old(store), resource),
{
    store.remove(&key).map(|pair| pair.1)
}

/// `DashMap::iter`: walks the store and describes each entry once, in an order that is the
/// store's own and is not stated.
#[verifier::external_body]
pub(crate) fn walk(store: &DashMap<u64, CacheEntry>) -> (slots: Vec<Slot>)
    ensures
        forall|i: int|
            0 <= i < slots.len() ==> entries_of(*store).contains_key(#[trigger] slots[i].key)
                && slots[i].describes(slots[i].key, entries_of(*store)[slots[i].key]@),
        forall|i: int, j: int|
            0 <= i < j < slots.len() ==> #[trigger] slots[i].key != #[trigger] slots[j].key,
        forall|key: u64| #[trigger]
            entries_of(*store).contains_key(key) ==> exists|i: int|
                0 <= i < slots.len() && #[trigger] slots[i].key == key,
{
    store.iter().map(|item| item.value().slot(*item.key())).collect()
}

/// `DashMap::len`: the number of entries.
#[verifier::external_body]
pub(crate) fn entry_count(store: &DashMap<u64, CacheEntry>) -> (count: usize)
    ensures
        count == entries_of(*store).len(),
{
    store.len()
}

} // verus!
