//! What holds of the cache as a whole.
use crate::cache::{FetchOutcome, Lookup};
use crate::content::{bytes_of, CacheError, CacheResult};
use crate::model::{
    is_eviction_run, is_victim, lemma_accounting, lemma_memory_remove, memory_of, without,
    CacheView, EntryView, LookupView,
};
use crate::request::{is_status_code, WaitEvent, WaitStep, TIME_TO_LIVE};
use crate::settings::{
    parsed_uri, settings_for, settings_text, FetchSettings, Rejection, SettingsError, UriParts,
    UriView,
};
use crate::store::CacheEntry;
use crate::tls::{certificates_in, key_search, next_item, KeySearch, PemItem, PemItemView};
use hyper::HeaderMap;
use vstd::prelude::*;

verus! {

/// Evictions only take entries out.
proof fn lemma_without(entries: Map<u64, EntryView>, run: Seq<u64>)
    requires
        entries.dom().finite(),
    ensures
        without(entries, run).dom().finite(),
        without(entries, run).submap_of(entries),
        memory_of(without(entries, run)) <= memory_of(entries),
    decreases run.len(),
{
    if run.len() > 0 {
        let before = without(entries, run.drop_last());
        lemma_without(entries, run.drop_last());
        if before.contains_key(run.last()) {
            lemma_memory_remove(before, run.last());
        } else {
            assert(before.remove(run.last()) =~= before);
        }
    }
}

/// The evictions that went before a resource was filed.
proof fn lemma_store_run(
    state: CacheView,
    key: u64,
    data: Seq<u8>,
    headers: HeaderMap,
    expires: u64,
    now: u64,
    after: CacheView,
) -> (run: Seq<u64>)
    requires
        state.entries.dom().finite(),
        state.stores(key, data, headers, expires, now, after),
    ensures
        state.is_fitting_run(data.len() as int, now, run),
        after == state.after_run(run).with_entry(
            key,
            (EntryView::Cached { data, headers, last_accessed: now, expires }),
        ),
        state.after_run(run).entries.dom().finite(),
        state.after_run(run).entries.submap_of(state.entries),
{
    let fitted = choose|fitted: CacheView| #[trigger]
        state.makes_fit(data.len() as int, now, fitted) && after == fitted.with_entry(
            key,
            EntryView::Cached { data, headers, last_accessed: now, expires },
        );
    let run = choose|run: Seq<u64>| #[trigger]
        state.is_fitting_run(data.len() as int, now, run) && fitted == state.after_run(run);
    lemma_without(state.entries, run);
    run
}

/// Where memory is used, an entry accounts for some of it.
proof fn lemma_some_entry_has_size(entries: Map<u64, EntryView>) -> (key: u64)
    requires
        entries.dom().finite(),
        memory_of(entries) > 0,
    ensures
        entries.contains_key(key),
        entries[key].size() > 0,
    decreases entries.dom().len(),
{
    let first = entries.dom().choose();
    assert(entries.dom().contains(first));
    if entries[first].size() > 0 {
        first
    } else {
        lemma_some_entry_has_size(entries.remove(first))
    }
}

/// No cached entry was accessed later than `now`.
pub open spec fn clock_is_at_least(entries: Map<u64, EntryView>, now: u64) -> bool {
    forall|key: u64| #[trigger]
        entries.contains_key(key) && entries[key] is Cached ==> entries[key].accessed_by(now)
}

/// While memory is in use, evictions take cached entries, the least recently used first.
proof fn lemma_eviction_order(entries: Map<u64, EntryView>, now: u64, run: Seq<u64>)
    requires
        entries.dom().finite(),
        clock_is_at_least(entries, now),
        is_eviction_run(entries, now, run),
        run.len() > 0 ==> memory_of(without(entries, run.drop_last())) > 0,
    ensures
        forall|gone: u64| #[trigger]
            entries.contains_key(gone) && !without(entries, run).contains_key(gone)
                ==> entries[gone] is Cached,
        forall|gone: u64, kept: u64|
            #![trigger entries.contains_key(gone), without(entries, run).contains_key(kept)]
            entries.contains_key(gone) && !without(entries, run).contains_key(gone) && without(
                entries,
                run,
            ).contains_key(kept) && entries[kept] is Cached ==> entries[gone]->last_accessed
                <= entries[kept]->last_accessed,
    decreases run.len(),
{
    if run.len() > 0 {
        let before = without(entries, run.drop_last());
        lemma_without(entries, run.drop_last());
        if run.drop_last().len() > 0 {
            lemma_without(entries, run.drop_last().drop_last());
            let earlier = without(entries, run.drop_last().drop_last());
            let last = run.drop_last().last();
            if earlier.contains_key(last) {
                lemma_memory_remove(earlier, last);
            } else {
                assert(earlier.remove(last) =~= earlier);
            }
        }
        lemma_eviction_order(entries, now, run.drop_last());
        let used = lemma_some_entry_has_size(before);
        assert(entries.contains_key(used) && entries[used] == before[used]);
        assert(before[used].accessed_by(now));
        assert(is_victim(before, now, run.last()));
        assert(before[run.last()].accessed_by(now));
        assert forall|gone: u64, kept: u64|
            #![trigger entries.contains_key(gone), without(entries, run).contains_key(kept)]
            entries.contains_key(gone) && !without(entries, run).contains_key(gone) && without(
                entries,
                run,
            ).contains_key(kept) && entries[kept] is Cached implies entries[gone]->last_accessed
            <= entries[kept]->last_accessed by {
            assert(before.contains_key(kept) && entries.contains_key(kept));
            if before.contains_key(gone) {
                assert(gone == run.last());
            }
        }
    }
}

/// Whatever is evicted while a cached entry that was accessed by now stays is cached, and was
/// accessed no later than that entry.
proof fn lemma_evicted_are_older(entries: Map<u64, EntryView>, now: u64, run: Seq<u64>, kept: u64)
    requires
        entries.dom().finite(),
        is_eviction_run(entries, now, run),
        without(entries, run).contains_key(kept),
        entries[kept].accessed_by(now),
    ensures
        forall|gone: u64| #[trigger]
            entries.contains_key(gone) && !without(entries, run).contains_key(gone)
                ==> entries[gone] is Cached && entries[gone]->last_accessed
                <= entries[kept]->last_accessed,
    decreases run.len(),
{
    lemma_without(entries, run);
    if run.len() > 0 {
        let before = without(entries, run.drop_last());
        lemma_without(entries, run.drop_last());
        assert(before.contains_key(kept) && entries.contains_key(kept));
        lemma_evicted_are_older(entries, now, run.drop_last(), kept);
        assert(is_victim(before, now, run.last()));
        assert(before.contains_key(run.last()) && entries.contains_key(run.last()));
    }
}

/// Without the last eviction of a run there would be too little room.
proof fn lemma_last_eviction(state: CacheView, bytes: int, now: u64, run: Seq<u64>)
    requires
        state.valid(),
        state.is_fitting_run(bytes, now, run),
        run.len() > 0,
    ensures
        state.entries.contains_key(run.last()),
        !state.after_run(run).entries.contains_key(run.last()),
        state.after_run(run).used + state.entries[run.last()].size() + bytes > state.limit,
{
    let before = without(state.entries, run.drop_last());
    lemma_without(state.entries, run.drop_last());
    lemma_memory_remove(before, run.last());
    assert(before.contains_key(run.last()) && state.entries.contains_key(run.last()));
}

/// Every request keeps the accounting right and the memory limit, and no request changes the
/// limit or the key of a resource.
pub proof fn law_lookup_keeps_validity(state: CacheView, key: u64, watcher: u64, now: u64)
    requires
        state.valid(),
    ensures
        state.after_lookup(key, watcher, now).valid(),
        state.after_lookup(key, watcher, now).limit == state.limit,
        state.after_lookup(key, watcher, now).keys == state.keys,
        state.after_lookup(key, watcher, now).used <= state.used,
{
    match state.answer(key, now) {
        LookupView::Hit(data, headers, expires) => {
            lemma_accounting(
                state,
                key,
                EntryView::Cached { data, headers, last_accessed: now, expires },
            );
        },
        LookupView::Wait(_) => {},
        LookupView::Fetch(_) => {
            lemma_accounting(state, key, EntryView::Fetching(watcher));
        },
    }
}

/// Every end of a fetch, good or bad, keeps the accounting right and the memory limit, and changes
/// neither the limit nor the key of a resource.
pub proof fn law_finish_keeps_validity(
    state: CacheView,
    key: u64,
    data: Seq<u8>,
    headers: HeaderMap,
    expires: u64,
    now: u64,
    after: CacheView,
)
    requires
        state.valid(),
        state.stores(key, data, headers, expires, now, after) || after == state.discard(key),
    ensures
        after.valid(),
        after.limit == state.limit,
        after.hits == state.hits,
        after.misses == state.misses,
        after.keys == state.keys,
{
    if state.stores(key, data, headers, expires, now, after) {
        let run = lemma_store_run(state, key, data, headers, expires, now, after);
        let fitted = state.after_run(run);
        lemma_accounting(
            fitted,
            key,
            EntryView::Cached { data, headers, last_accessed: now, expires },
        );
    } else {
        lemma_accounting(state, key, EntryView::Fetching(0));
    }
}

/// A resource that was filed is served, bytes and headers, to every request before it expires and
/// to none after that.
pub proof fn law_stored_is_served_until_it_expires(
    state: CacheView,
    key: u64,
    data: Seq<u8>,
    headers: HeaderMap,
    expires: u64,
    stored: u64,
    after: CacheView,
    now: u64,
)
    requires
        state.stores(key, data, headers, expires, stored, after),
    ensures
        now < expires ==> after.answer(key, now) == LookupView::Hit(data, headers, expires),
        now >= expires ==> after.answer(key, now) == LookupView::Fetch(key),
{
}

/// What the fetch for a resource brought is what the next request for that resource finds.
pub proof fn law_fetched_resource_is_found(
    state: CacheView,
    resource: Seq<char>,
    watcher: u64,
    asked: u64,
    data: Seq<u8>,
    headers: HeaderMap,
    expires: u64,
    stored: u64,
    after: CacheView,
    now: u64,
)
    requires
        state.answer((state.keys)(resource), asked) is Fetch,
        state.after_lookup((state.keys)(resource), watcher, asked).stores(
            state.answer((state.keys)(resource), asked)->Fetch_0,
            data,
            headers,
            expires,
            stored,
            after,
        ),
        now < expires,
    ensures
        after.answer((after.keys)(resource), now) == LookupView::Hit(data, headers, expires),
{
}

/// A resource that was fetched at the time `fetched` is served for exactly its time to live.
pub proof fn law_fetched_lives_for_its_time(
    state: CacheView,
    key: u64,
    data: Seq<u8>,
    headers: HeaderMap,
    fetched: u64,
    stored: u64,
    after: CacheView,
    now: u64,
)
    requires
        fetched + TIME_TO_LIVE <= u64::MAX,
        state.stores(key, data, headers, (fetched + TIME_TO_LIVE) as u64, stored, after),
    ensures
        after.answer(key, now) is Hit <==> now < fetched + TIME_TO_LIVE,
        after.answer(key, now) is Hit <==> now < fetched + 30_000_000_000,
{
}

/// A hit leaves the resource there for the next request, until it expires.
pub proof fn law_hit_is_repeatable(
    state: CacheView,
    key: u64,
    watcher: u64,
    now: u64,
    later: u64,
)
    requires
        state.answer(key, now) is Hit,
        later < state.answer(key, now)->Hit_2,
    ensures
        state.after_lookup(key, watcher, now).answer(key, later) == state.answer(key, now),
{
}

/// Nothing is served from the time on at which it expires.
pub proof fn law_hits_are_fresh(state: CacheView, key: u64, now: u64)
    ensures
        state.answer(key, now) matches LookupView::Hit(_, _, expires) ==> now < expires,
{
}

/// A resource is fetched once: while the fetch is under way, every other request for it waits for
/// that fetch and changes nothing.
pub proof fn law_one_fetch_at_a_time(
    state: CacheView,
    key: u64,
    watcher: u64,
    now: u64,
    other: u64,
    later: u64,
)
    requires
        state.answer(key, now) is Fetch,
    ensures
        state.after_lookup(key, watcher, now).answer(key, later) == LookupView::Wait(watcher),
        state.after_lookup(key, watcher, now).after_lookup(key, other, later)
            == state.after_lookup(key, watcher, now),
{
}

/// Failures are not cached: the next request for the resource fetches it again.
pub proof fn law_failures_are_not_cached(state: CacheView, key: u64, now: u64)
    ensures
        state.discard(key).answer(key, now) == LookupView::Fetch(key),
{
}

/// The request that fetches and those that wait for it come out alike, whether the fetch ends with
/// a result or without one.
pub proof fn law_fetcher_and_waiters_agree(result: CacheResult)
    ensures
        WaitEvent::Checked(Some(result)).step() == WaitStep::Done(
            FetchOutcome::Finished(result).result(),
        ),
        WaitEvent::Closed.step() == WaitStep::Done(FetchOutcome::Aborted.result()),
{
}

/// Whatever a fetch ends with is what its request is told and what every request that waits for it
/// is told; where it ends without a result, all are told that something unexpected happened.
pub proof fn law_result_is_handed_on(outcome: FetchOutcome, event: WaitEvent, result: CacheResult)
    ensures
        outcome == FetchOutcome::Finished(result) ==> outcome.result() == result,
        outcome == FetchOutcome::Aborted ==> outcome.result() == CacheResult::Err(
            CacheError::Unknown,
        ),
        event == WaitEvent::Checked(Some(result)) ==> event.step() == WaitStep::Done(result),
        event == WaitEvent::Closed ==> event.step() == WaitStep::Done(
            CacheResult::Err(CacheError::Unknown),
        ),
        event == WaitEvent::Checked(None) ==> event.step() == WaitStep::Await,
        event == WaitEvent::Changed ==> event.step() == WaitStep::Check,
{
}

/// A request leaves the entries of other resources alone, and so does a failed fetch.
pub proof fn law_other_entries_stay(
    state: CacheView,
    key: u64,
    watcher: u64,
    now: u64,
    other: u64,
)
    requires
        other != key,
    ensures
        state.after_lookup(key, watcher, now).entries.get(other) == state.entries.get(other),
        state.discard(key).entries.get(other) == state.entries.get(other),
{
}

/// A fetched resource changes no other entry; it can only push it out.
pub proof fn law_store_only_pushes_out(
    state: CacheView,
    key: u64,
    data: Seq<u8>,
    headers: HeaderMap,
    expires: u64,
    now: u64,
    after: CacheView,
    other: u64,
)
    requires
        state.valid(),
        state.stores(key, data, headers, expires, now, after),
        other != key,
        after.entries.contains_key(other),
    ensures
        after.entries.get(other) == state.entries.get(other),
{
    let run = lemma_store_run(state, key, data, headers, expires, now, after);
    let fitted = state.after_run(run);
    assert(fitted.entries.dom().contains(other));
}

/// Room is made where there is none, and only there.
pub proof fn law_room_is_made_only_if_needed(
    state: CacheView,
    bytes: int,
    now: u64,
    after: CacheView,
)
    requires
        state.valid(),
        state.makes_fit(bytes, now, after),
    ensures
        after.used + bytes <= after.limit,
        state.used + bytes <= state.limit ==> after == state,
        after.entries.submap_of(state.entries),
        after.used == memory_of(after.entries),
        after.limit == state.limit,
        after.hits == state.hits,
        after.misses == state.misses,
        after.keys == state.keys,
{
    let run = choose|run: Seq<u64>| #[trigger]
        state.is_fitting_run(bytes, now, run) && after == state.after_run(run);
    lemma_without(state.entries, run);
    if run.len() > 0 {
        lemma_without(state.entries, run.drop_last());
    }
}

/// Room is made by evicting cached resources, the least recently used first: whatever is evicted
/// was accessed no later than anything that stays, fetches under way stay, and what stays is
/// unchanged.
pub proof fn law_least_recently_used_goes_first(
    state: CacheView,
    bytes: int,
    now: u64,
    after: CacheView,
)
    requires
        state.valid(),
        bytes <= state.limit,
        clock_is_at_least(state.entries, now),
        state.makes_fit(bytes, now, after),
    ensures
        after.entries.submap_of(state.entries),
        forall|gone: u64| #[trigger]
            state.entries.contains_key(gone) && !after.entries.contains_key(gone)
                ==> state.entries[gone] is Cached,
        forall|gone: u64, kept: u64|
            #![trigger state.entries.contains_key(gone), after.entries.contains_key(kept)]
            state.entries.contains_key(gone) && !after.entries.contains_key(gone)
                && after.entries.contains_key(kept) && state.entries[kept] is Cached
                ==> state.entries[gone]->last_accessed <= state.entries[kept]->last_accessed,
{
    let run = choose|run: Seq<u64>| #[trigger]
        state.is_fitting_run(bytes, now, run) && after == state.after_run(run);
    lemma_without(state.entries, run);
    lemma_eviction_order(state.entries, now, run);
}

/// A resource that was just served is not the next to go while an older one is there.
pub proof fn law_recently_served_survives(
    state: CacheView,
    key: u64,
    watcher: u64,
    now: u64,
    older: u64,
    later: u64,
    victim: u64,
)
    requires
        state.answer(key, now) is Hit,
        state.entries.contains_key(older),
        state.entries[older] is Cached,
        state.entries[older]->last_accessed < now <= later,
        older != key,
        is_victim(state.after_lookup(key, watcher, now).entries, later, victim),
    ensures
        victim != key,
{
    let entries = state.after_lookup(key, watcher, now).entries;
    assert(entries.contains_key(older) && entries[older].accessed_by(later));
}

/// The clock stays ahead of every access: a step at a time that no access is later than leaves it
/// so.
pub proof fn law_clock_stays_ahead(
    state: CacheView,
    key: u64,
    watcher: u64,
    data: Seq<u8>,
    headers: HeaderMap,
    expires: u64,
    now: u64,
    after: CacheView,
    later: u64,
)
    requires
        state.valid(),
        clock_is_at_least(state.entries, now),
        now <= later,
        after == state.after_lookup(key, watcher, now) || after == state.discard(key)
            || state.stores(key, data, headers, expires, now, after),
    ensures
        clock_is_at_least(after.entries, later),
{
    if state.stores(key, data, headers, expires, now, after) {
        let run = lemma_store_run(state, key, data, headers, expires, now, after);
        let fitted = state.after_run(run);
        let entries = after.entries;
        assert forall|k: u64| #[trigger]
            entries.contains_key(k) && entries[k] is Cached implies entries[k].accessed_by(
            later,
        ) by {
            if k != key {
                assert(fitted.entries.contains_key(k) && state.entries.contains_key(k));
            }
        }
    }
}

/// Memory use is the number of cached bytes: none in an empty cache, the resource's length more
/// with each resource, and nothing for a fetch under way.
pub proof fn law_memory_is_the_cached_bytes(
    entries: Map<u64, EntryView>,
    key: u64,
    data: Seq<u8>,
    headers: HeaderMap,
    last_accessed: u64,
    expires: u64,
    watcher: u64,
)
    requires
        entries.dom().finite(),
        !entries.contains_key(key),
    ensures
        memory_of(Map::<u64, EntryView>::empty()) == 0,
        memory_of(
            entries.insert(key, (EntryView::Cached { data, headers, last_accessed, expires })),
        ) == memory_of(entries) + data.len(),
        memory_of(entries.insert(key, EntryView::Fetching(watcher))) == memory_of(entries),
{
    let cached = entries.insert(key, EntryView::Cached { data, headers, last_accessed, expires });
    let fetching = entries.insert(key, EntryView::Fetching(watcher));
    lemma_memory_remove(cached, key);
    lemma_memory_remove(fetching, key);
    assert(cached.remove(key) =~= entries);
    assert(fetching.remove(key) =~= entries);
}

/// A valid cache accounts for the bytes that it holds, no more and no less, and keeps the limit.
pub proof fn law_valid_cache_keeps_its_limit(state: CacheView)
    ensures
        state.valid() <==> state.entries.dom().finite() && state.used == memory_of(state.entries)
            && memory_of(state.entries) <= state.limit,
{
}

/// What a request finds, by what is under the key: a resource until it expires, then and where
/// there is nothing the task of fetching it, and while it is fetched the channel to wait on.
pub proof fn law_answer_by_entry(
    state: CacheView,
    key: u64,
    data: Seq<u8>,
    headers: HeaderMap,
    last_accessed: u64,
    expires: u64,
    watcher: u64,
    now: u64,
)
    ensures
        state.entries.get(key) == Some(
            (EntryView::Cached { data, headers, last_accessed, expires }),
        ) && now < expires ==> state.answer(key, now) == LookupView::Hit(data, headers, expires),
        state.entries.get(key) == Some(
            (EntryView::Cached { data, headers, last_accessed, expires }),
        ) && now >= expires ==> state.answer(key, now) == LookupView::Fetch(key),
        state.entries.get(key) == Some(EntryView::Fetching(watcher)) ==> state.answer(key, now)
            == LookupView::Wait(watcher),
        state.entries.get(key) is None ==> state.answer(key, now) == LookupView::Fetch(key),
{
}

/// What a request leaves, by what it finds: a hit changes the time of the last access and nothing
/// else, a request that waits changes nothing, and one that fetches puts the fetch in the place of
/// whatever was there.
pub proof fn law_lookup_by_answer(state: CacheView, key: u64, watcher: u64, now: u64)
    ensures
        state.answer(key, now) matches LookupView::Hit(data, headers, expires)
            ==> state.after_lookup(key, watcher, now).entries == state.entries.insert(
            key,
            (EntryView::Cached { data, headers, last_accessed: now, expires }),
        ),
        state.answer(key, now) is Hit ==> state.after_lookup(key, watcher, now).used == state.used,
        state.answer(key, now) is Wait ==> state.after_lookup(key, watcher, now) == state,
        state.answer(key, now) is Fetch ==> state.after_lookup(key, watcher, now).entries
            == state.entries.insert(key, EntryView::Fetching(watcher)),
        state.after_lookup(key, watcher, now).limit == state.limit,
        state.after_lookup(key, watcher, now).hits == state.hits,
        state.after_lookup(key, watcher, now).misses == state.misses,
        state.after_lookup(key, watcher, now).keys == state.keys,
{
}

/// A failed fetch takes out what is under its key, and the memory that went with it.
pub proof fn law_failure_takes_out_one_entry(state: CacheView, key: u64)
    ensures
        state.discard(key).entries == state.entries.remove(key),
        state.entries.get(key) matches Some(EntryView::Cached { data, .. })
            ==> state.discard(key).used == state.used - data.len(),
        state.entries.get(key) matches Some(EntryView::Fetching(_)) ==> state.discard(key).used
            == state.used,
        state.entries.get(key) is None ==> state.discard(key).used == state.used,
        state.discard(key).limit == state.limit,
        state.discard(key).hits == state.hits,
        state.discard(key).misses == state.misses,
        state.discard(key).keys == state.keys,
{
}

/// A fetched resource for which there is room is added, and every other entry stays as it is.
pub proof fn law_store_with_room_keeps_every_entry(
    state: CacheView,
    key: u64,
    data: Seq<u8>,
    headers: HeaderMap,
    expires: u64,
    now: u64,
    after: CacheView,
)
    requires
        state.valid(),
        state.used + data.len() <= state.limit,
        state.stores(key, data, headers, expires, now, after),
    ensures
        after.entries == state.entries.insert(
            key,
            (EntryView::Cached { data, headers, last_accessed: now, expires }),
        ),
        forall|other: u64|
            other != key ==> #[trigger] after.entries.get(other) == state.entries.get(other),
        after.used == memory_of(after.entries),
        state.entries.get(key) is None ==> after.used == state.used + data.len(),
        state.entries.get(key) matches Some(EntryView::Fetching(_)) ==> after.used == state.used
            + data.len(),
        state.entries.get(key) matches Some(EntryView::Cached { data: replaced, .. })
            ==> after.used == state.used - replaced.len() + data.len(),
{
    let fitted = choose|fitted: CacheView| #[trigger]
        state.makes_fit(data.len() as int, now, fitted) && after == fitted.with_entry(
            key,
            EntryView::Cached { data, headers, last_accessed: now, expires },
        );
    law_room_is_made_only_if_needed(state, data.len() as int, now, fitted);
    lemma_accounting(
        fitted,
        key,
        EntryView::Cached { data, headers, last_accessed: now, expires },
    );
}

/// A fetched resource for which there is no room is added all the same. What it pushes out is
/// cached, was there while memory was short, and was accessed no later than anything that stays.
pub proof fn law_store_pushes_out_the_oldest(
    state: CacheView,
    key: u64,
    data: Seq<u8>,
    headers: HeaderMap,
    expires: u64,
    now: u64,
    after: CacheView,
)
    requires
        state.valid(),
        data.len() <= state.limit,
        forall|k: u64| #[trigger]
            state.entries.contains_key(k) && state.entries[k] is Cached
                ==> state.entries[k]->last_accessed <= now,
        state.stores(key, data, headers, expires, now, after),
    ensures
        after.entries.get(key) == Some(
            (EntryView::Cached { data, headers, last_accessed: now, expires }),
        ),
        after.used == memory_of(after.entries),
        after.used <= state.limit,
        forall|gone: u64| #[trigger]
            state.entries.contains_key(gone) && !after.entries.contains_key(gone)
                ==> state.used + data.len() > state.limit && state.entries[gone] is Cached,
        forall|gone: u64, kept: u64|
            #![trigger state.entries.contains_key(gone), after.entries.contains_key(kept)]
            state.entries.contains_key(gone) && !after.entries.contains_key(gone)
                && after.entries.contains_key(kept) && kept != key && after.entries[kept] is Cached
                ==> state.entries[gone]->last_accessed <= after.entries[kept]->last_accessed,
{
    let fitted = choose|fitted: CacheView| #[trigger]
        state.makes_fit(data.len() as int, now, fitted) && after == fitted.with_entry(
            key,
            EntryView::Cached { data, headers, last_accessed: now, expires },
        );
    law_room_is_made_only_if_needed(state, data.len() as int, now, fitted);
    law_least_recently_used_goes_first(state, data.len() as int, now, fitted);
    law_finish_keeps_validity(state, key, data, headers, expires, now, after);
    assert forall|gone: u64| #[trigger]
        state.entries.contains_key(gone) && !after.entries.contains_key(gone) implies state.used
        + data.len() > state.limit && state.entries[gone] is Cached by {
        assert(!fitted.entries.contains_key(gone));
    }
    assert forall|gone: u64, kept: u64|
        #![trigger state.entries.contains_key(gone), after.entries.contains_key(kept)]
        state.entries.contains_key(gone) && !after.entries.contains_key(gone)
            && after.entries.contains_key(kept) && kept != key
            && after.entries[kept] is Cached implies state.entries[gone]->last_accessed
        <= after.entries[kept]->last_accessed by {
        assert(!fitted.entries.contains_key(gone));
        assert(fitted.entries.contains_key(kept) && state.entries.contains_key(kept));
    }
}

/// Whatever time it is: while a resource that was accessed by now stays, making room takes only
/// resources that were accessed no later; and it takes nothing without which there was room.
pub proof fn law_evictions_at_any_time(
    state: CacheView,
    bytes: int,
    now: u64,
    after: CacheView,
    kept: u64,
)
    requires
        state.valid(),
        state.makes_fit(bytes, now, after),
    ensures
        after.entries.contains_key(kept) && after.entries[kept] is Cached
            && after.entries[kept]->last_accessed <= now ==> forall|gone: u64| #[trigger]
            state.entries.contains_key(gone) && !after.entries.contains_key(gone)
                ==> state.entries[gone] is Cached && state.entries[gone]->last_accessed
                <= after.entries[kept]->last_accessed,
        after.entries != state.entries ==> exists|last: u64| #[trigger]
            state.entries.contains_key(last) && !after.entries.contains_key(last) && after.used + (
            match state.entries[last] {
                EntryView::Cached { data, .. } => data.len() as int,
                EntryView::Fetching(_) => 0,
            }) + bytes > state.limit,
{
    let run = choose|run: Seq<u64>| #[trigger]
        state.is_fitting_run(bytes, now, run) && after == state.after_run(run);
    lemma_without(state.entries, run);
    if after.entries.contains_key(kept) {
        assert(state.entries.contains_key(kept));
        if after.entries[kept].accessed_by(now) {
            lemma_evicted_are_older(state.entries, now, run, kept);
        }
    }
    if run.len() > 0 {
        lemma_last_eviction(state, bytes, now, run);
    }
}

/// Filing a resource, whatever time it is, pushes out only what was accessed no later than a
/// resource that stays, and no more than it takes: before the last entry went, the resource did
/// not fit. `replaced` is the length of the resource that was under the key before, if there was
/// one.
pub proof fn law_store_pushes_out_no_more_than_needed(
    state: CacheView,
    key: u64,
    data: Seq<u8>,
    headers: HeaderMap,
    expires: u64,
    now: u64,
    after: CacheView,
    replaced: nat,
    kept: u64,
)
    requires
        state.valid(),
        state.stores(key, data, headers, expires, now, after),
        replaced == (match state.entries.get(key) {
            Some(EntryView::Cached { data: bytes, .. }) => bytes.len(),
            _ => 0,
        }),
    ensures
        after.entries.contains_key(kept) && kept != key && after.entries[kept] is Cached
            && after.entries[kept]->last_accessed <= now ==> forall|gone: u64| #[trigger]
            state.entries.contains_key(gone) && !after.entries.contains_key(gone)
                ==> state.entries[gone] is Cached && state.entries[gone]->last_accessed
                <= after.entries[kept]->last_accessed,
        after.entries.remove(key) != state.entries.remove(key) ==> exists|last: u64| #[trigger]
            state.entries.contains_key(last) && if last == key {
                after.used + replaced > state.limit
            } else {
                !after.entries.contains_key(last) && after.used + replaced + (
                match state.entries[last] {
                    EntryView::Cached { data: bytes, .. } => bytes.len() as int,
                    EntryView::Fetching(_) => 0,
                }) > state.limit
            },
{
    let run = lemma_store_run(state, key, data, headers, expires, now, after);
    let fitted = state.after_run(run);
    if after.entries.contains_key(kept) && kept != key {
        assert(fitted.entries.contains_key(kept) && state.entries.contains_key(kept));
        if after.entries[kept].accessed_by(now) {
            lemma_evicted_are_older(state.entries, now, run, kept);
            assert forall|gone: u64| #[trigger]
                state.entries.contains_key(gone) && !after.entries.contains_key(
                    gone,
                ) implies state.entries[gone] is Cached && state.entries[gone]->last_accessed
                <= after.entries[kept]->last_accessed by {
                assert(!fitted.entries.contains_key(gone));
            }
        }
    }
    if run.len() > 0 {
        lemma_last_eviction(state, data.len() as int, now, run);
        if fitted.entries.contains_key(key) {
            assert(state.entries.contains_key(key));
        }
    } else {
        assert(after.entries.remove(key) =~= state.entries.remove(key));
    }
}

/// No more is evicted than making room takes: without the last eviction, that of the most recently
/// used of what went, there would be too little.
pub proof fn law_every_eviction_is_needed(
    state: CacheView,
    bytes: int,
    now: u64,
    after: CacheView,
)
    requires
        state.valid(),
        bytes <= state.limit,
        forall|k: u64| #[trigger]
            state.entries.contains_key(k) && state.entries[k] is Cached
                ==> state.entries[k]->last_accessed <= now,
        state.makes_fit(bytes, now, after),
        after.entries != state.entries,
    ensures
        state.used + bytes > state.limit,
        exists|last: u64| #[trigger]
            state.entries.contains_key(last) && !after.entries.contains_key(last)
                && state.entries[last] is Cached && after.used + state.entries[last]->data.len()
                + bytes > state.limit && (forall|gone: u64| #[trigger]
                state.entries.contains_key(gone) && !after.entries.contains_key(gone)
                    ==> state.entries[gone]->last_accessed <= state.entries[last]->last_accessed),
{
    law_room_is_made_only_if_needed(state, bytes, now, after);
    law_least_recently_used_goes_first(state, bytes, now, after);
    let run = choose|run: Seq<u64>| #[trigger]
        state.is_fitting_run(bytes, now, run) && after == state.after_run(run);
    let earlier = run.drop_last();
    let before = without(state.entries, earlier);
    let last = run.last();
    lemma_last_eviction(state, bytes, now, run);
    lemma_without(state.entries, earlier);
    lemma_memory_remove(before, last);
    assert(before.contains_key(last));
    assert(is_eviction_run(state.entries, now, earlier));
    if earlier.len() > 0 {
        let first = without(state.entries, earlier.drop_last());
        lemma_without(state.entries, earlier.drop_last());
        lemma_memory_remove(first, earlier.last());
    }
    lemma_eviction_order(state.entries, now, earlier);
}

/// The entry to evict is one that is there; while any cached resource was accessed by now, it is a
/// cached resource, and none was accessed earlier.
pub proof fn law_victim_is_the_oldest(
    entries: Map<u64, EntryView>,
    now: u64,
    victim: u64,
    key: u64,
)
    requires
        is_victim(entries, now, victim),
        entries.contains_key(key),
        entries[key] is Cached,
        entries[key]->last_accessed <= now,
    ensures
        entries.contains_key(victim),
        entries[victim] is Cached,
        entries[victim]->last_accessed <= entries[key]->last_accessed,
{
    assert(entries[key].accessed_by(now));
}

/// Resources under different keys do not mix: whatever happens to one, a request for the other
/// finds what it found before, as long as there is room.
pub proof fn law_resources_do_not_mix(
    state: CacheView,
    resource: Seq<char>,
    other: Seq<char>,
    watcher: u64,
    data: Seq<u8>,
    headers: HeaderMap,
    expires: u64,
    now: u64,
    after: CacheView,
    later: u64,
)
    requires
        state.valid(),
        state.used + data.len() <= state.limit,
        (state.keys)(resource) != (state.keys)(other),
        after == state.after_lookup((state.keys)(resource), watcher, now) || after
            == state.discard((state.keys)(resource)) || state.stores(
            (state.keys)(resource),
            data,
            headers,
            expires,
            now,
            after,
        ),
    ensures
        (after.keys)(other) == (state.keys)(other),
        after.answer((after.keys)(other), later) == state.answer((state.keys)(other), later),
{
    let key = (state.keys)(resource);
    if state.stores(key, data, headers, expires, now, after) {
        law_store_with_room_keeps_every_entry(state, key, data, headers, expires, now, after);
        law_finish_keeps_validity(state, key, data, headers, expires, now, after);
        assert(after.entries.get((state.keys)(other)) == state.entries.get((state.keys)(other)));
    }
}

/// What a stored entry and an answer stand for: the bytes of their buffer, all of them, and the
/// headers and times that they carry.
pub proof fn law_values_stand_for_themselves(entry: CacheEntry, found: Lookup)
    ensures
        match entry {
            CacheEntry::Cached { data, headers, last_accessed, expires } => entry@
                == (EntryView::Cached {
                data: bytes_of(data),
                headers: *headers,
                last_accessed,
                expires,
            }),
            CacheEntry::Fetching(watcher) => entry@ == EntryView::Fetching(watcher),
        },
        match found {
            Lookup::Hit(data, headers, expires) => found@ == LookupView::Hit(
                bytes_of(data),
                *headers,
                expires,
            ),
            Lookup::Wait(watcher) => found@ == LookupView::Wait(watcher),
            Lookup::Fetch(key) => found@ == LookupView::Fetch(key),
        },
{
}

/// Every three-digit number can stand in an answer as its status code, and no other can.
pub proof fn law_status_codes_have_three_digits(status: u16)
    ensures
        is_status_code(status) <==> 100 <= status <= 999,
{
}

/// An accepted backend URL is an HTTP URL that ends with a slash, and the URL of every resource on
/// it begins with it.
pub proof fn law_backend_url(uri: UriView, resource: Seq<char>)
    requires
        uri.rejection() is None,
    ensures
        "http://"@.is_prefix_of(uri.url()),
        uri.url().last() == '/',
        uri.url().is_prefix_of(uri.url() + resource.skip(1)),
{
    reveal_strlit("http");
    reveal_strlit("://");
    reveal_strlit("http://");
    assert("http://"@ =~= "http"@ + "://"@);
    assert(uri.url().last() == uri.path.last());
}

/// A backend URL is accepted exactly if it is a URI whose scheme is HTTP, that names an authority,
/// has no query and whose path ends with a slash, however long any of these is. It is fetched from
/// as it is spelled; one that is not accepted is refused for the first of these that it lacks.
pub proof fn law_good_backend_url_is_accepted(text: Seq<char>, uri: UriView)
    requires
        parsed_uri(text) matches Ok(parsed) && parsed == uri,
    ensures
        settings_for(text) is Ok <==> uri.scheme == Some("http"@) && uri.authority is Some
            && uri.query is None && uri.path.len() > 0 && uri.path.last() == '/',
        settings_for(text) matches Ok(url) ==> url == "http://"@ + uri.authority->0 + uri.path,
        settings_for(text) matches Err(SettingsError::Rejected(Rejection::NotHttp)) <==> uri.scheme
            != Some("http"@),
        settings_for(text) matches Err(SettingsError::Rejected(Rejection::HasQuery)) <==> uri.scheme
            == Some("http"@) && uri.query is Some,
        settings_for(text) matches Err(SettingsError::Rejected(Rejection::Relative)) <==> uri.scheme
            == Some("http"@) && uri.query is None && uri.authority is None,
        settings_for(text) matches Err(SettingsError::Rejected(Rejection::NoTrailingSlash))
            <==> uri.scheme == Some("http"@) && uri.query is None && uri.authority is Some && (
        uri.path.len() == 0 || uri.path.last() != '/'),
        uri.is_plain_http() <==> uri.scheme == Some("http"@) && uri.authority is Some
            && uri.query is None,
{
    reveal_strlit("http");
    reveal_strlit("://");
    reveal_strlit("http://");
    assert("http://"@ =~= "http"@ + "://"@);
}

/// A backend URL that is no URI is refused with what is wrong with it.
pub proof fn law_text_that_is_no_uri_is_refused(text: Seq<char>)
    ensures
        parsed_uri(text) matches Err(error) ==> settings_for(text) == Err::<Seq<char>, _>(
            SettingsError::InvalidUri(error),
        ),
{
}

/// The components of a URI stand for their whole text, and settings for their URL.
pub proof fn law_components_stand_for_their_text(
    parts: UriParts,
    settings: Result<FetchSettings, SettingsError>,
)
    ensures
        parts@.path == parts.path@,
        match parts.scheme {
            Some(text) => parts@.scheme == Some(text@),
            None => parts@.scheme is None,
        },
        match parts.authority {
            Some(text) => parts@.authority == Some(text@),
            None => parts@.authority is None,
        },
        match parts.query {
            Some(text) => parts@.query == Some(text@),
            None => parts@.query is None,
        },
        match settings {
            Ok(settings) => settings_text(Ok(settings)) == Ok::<_, SettingsError>(
                settings.backend_url@,
            ),
            Err(error) => settings_text(Err(error)) == Err::<Seq<char>, _>(error),
        },
{
}

/// A file whose next section is a private key, in any of the three forms and of any length, yields
/// exactly that key; any other section is passed over; at the end of the file the key is missing,
/// and malformed text is reported.
pub proof fn law_key_search_by_section(
    pem: Seq<u8>,
    der: Seq<u8>,
    rest: Seq<u8>,
    error: std::io::Error,
)
    ensures
        next_item(pem) == Ok::<_, std::io::Error>((Some(PemItemView::RsaKey(der)), rest))
            ==> key_search(pem) == KeySearch::Found(der),
        next_item(pem) == Ok::<_, std::io::Error>((Some(PemItemView::Pkcs8Key(der)), rest))
            ==> key_search(pem) == KeySearch::Found(der),
        next_item(pem) == Ok::<_, std::io::Error>((Some(PemItemView::EcKey(der)), rest))
            ==> key_search(pem) == KeySearch::Found(der),
        next_item(pem) == Ok::<_, std::io::Error>((Some(PemItemView::Certificate(der)), rest))
            && rest.len() < pem.len() ==> key_search(pem) == key_search(rest),
        next_item(pem) == Ok::<_, std::io::Error>((Some(PemItemView::Crl(der)), rest)) && rest.len()
            < pem.len() ==> key_search(pem) == key_search(rest),
        next_item(pem) == Ok::<_, std::io::Error>((Some(PemItemView::Other), rest)) && rest.len()
            < pem.len() ==> key_search(pem) == key_search(rest),
        next_item(pem) == Ok::<_, std::io::Error>((None::<PemItemView>, rest)) ==> key_search(pem)
            == KeySearch::Missing,
        next_item(pem) == Err::<(Option<PemItemView>, Seq<u8>), _>(error) ==> key_search(pem)
            == KeySearch::Malformed(error),
{
}

/// A file whose next section is a certificate, of any length, yields it before those that follow;
/// any other section is passed over; the end of the file adds none, and malformed text is reported.
pub proof fn law_certificates_by_section(
    pem: Seq<u8>,
    der: Seq<u8>,
    rest: Seq<u8>,
    later: Seq<Seq<u8>>,
    error: std::io::Error,
)
    requires
        rest.len() < pem.len(),
    ensures
        next_item(pem) == Ok::<_, std::io::Error>((Some(PemItemView::Certificate(der)), rest))
            && certificates_in(rest) == Ok::<_, std::io::Error>(later) ==> certificates_in(pem)
            == Ok::<_, std::io::Error>(seq![der] + later),
        next_item(pem) == Ok::<_, std::io::Error>((Some(PemItemView::Certificate(der)), rest))
            && certificates_in(rest) == Err::<Seq<Seq<u8>>, _>(error) ==> certificates_in(pem)
            == Err::<Seq<Seq<u8>>, _>(error),
        next_item(pem) == Ok::<_, std::io::Error>((Some(PemItemView::RsaKey(der)), rest))
            ==> certificates_in(pem) == certificates_in(rest),
        next_item(pem) == Ok::<_, std::io::Error>((Some(PemItemView::Pkcs8Key(der)), rest))
            ==> certificates_in(pem) == certificates_in(rest),
        next_item(pem) == Ok::<_, std::io::Error>((Some(PemItemView::EcKey(der)), rest))
            ==> certificates_in(pem) == certificates_in(rest),
        next_item(pem) == Ok::<_, std::io::Error>((Some(PemItemView::Crl(der)), rest))
            ==> certificates_in(pem) == certificates_in(rest),
        next_item(pem) == Ok::<_, std::io::Error>((Some(PemItemView::Other), rest))
            ==> certificates_in(pem) == certificates_in(rest),
        next_item(pem) == Ok::<_, std::io::Error>((None::<PemItemView>, rest))
            ==> certificates_in(pem) == Ok::<_, std::io::Error>(Seq::<Seq<u8>>::empty()),
        next_item(pem) == Err::<(Option<PemItemView>, Seq<u8>), _>(error) ==> certificates_in(pem)
            == Err::<Seq<Seq<u8>>, _>(error),
{
}

/// A section stands for its bytes, all of them, and for its own kind.
pub proof fn law_sections_stand_for_their_bytes(item: PemItem)
    ensures
        match item {
            PemItem::Certificate(der) => item@ == PemItemView::Certificate(der@),
            PemItem::RsaKey(der) => item@ == PemItemView::RsaKey(der@),
            PemItem::Pkcs8Key(der) => item@ == PemItemView::Pkcs8Key(der@),
            PemItem::EcKey(der) => item@ == PemItemView::EcKey(der@),
            PemItem::Crl(der) => item@ == PemItemView::Crl(der@),
            PemItem::Other => item@ == PemItemView::Other,
        },
{
}

/// A private key is found behind whatever else the file begins with.
pub proof fn law_key_is_found_behind_other_sections(
    pem: Seq<u8>,
    item: PemItemView,
    rest: Seq<u8>,
)
    requires
        next_item(pem) == Ok::<_, std::io::Error>((Some(item), rest)),
        item.key() is None,
        rest.len() < pem.len(),
    ensures
        key_search(pem) == key_search(rest),
{
}

/// Certificates come out in file order: the one that a file begins with is the first, and another
/// section at the beginning makes no difference.
pub proof fn law_certificates_come_in_file_order(
    pem: Seq<u8>,
    item: PemItemView,
    rest: Seq<u8>,
    later: Seq<Seq<u8>>,
)
    requires
        next_item(pem) == Ok::<_, std::io::Error>((Some(item), rest)),
        rest.len() < pem.len(),
        certificates_in(rest) == Ok::<_, std::io::Error>(later),
    ensures
        certificates_in(pem) == Ok::<_, std::io::Error>(
            match item.certificate() {
                Some(der) => seq![der] + later,
                None => later,
            },
        ),
{
}

/// What is wrong further down in a file is what reading its certificates reports, whatever the
/// sections before it hold.
pub proof fn law_malformed_text_is_reported(
    pem: Seq<u8>,
    item: PemItemView,
    rest: Seq<u8>,
    error: std::io::Error,
)
    requires
        next_item(pem) == Ok::<_, std::io::Error>((Some(item), rest)),
        rest.len() < pem.len(),
        certificates_in(rest) == Err::<Seq<Seq<u8>>, _>(error),
    ensures
        certificates_in(pem) == Err::<Seq<Seq<u8>>, _>(error),
{
}

/// What comes of a backend URL depends on its text alone.
pub proof fn law_same_text_same_settings(
    text: Seq<char>,
    first: Result<FetchSettings, SettingsError>,
    second: Result<FetchSettings, SettingsError>,
)
    requires
        settings_for(text) == settings_text(first),
        settings_for(text) == settings_text(second),
    ensures
        first is Ok <==> second is Ok,
        first is Ok ==> first->Ok_0.backend_url@ == second->Ok_0.backend_url@,
        first is Err ==> first->Err_0 == second->Err_0,
{
}

} // verus!
