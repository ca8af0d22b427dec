//! A cache of preflight simulations.
//!
//! A simulation is worth keeping for as long as the block hash that it ran against is valid,
//! which is about a minute. An entry is found again only under the block hash that it was
//! stored with, and only until its time to live has passed.

use crate::keys::Blockhash;
use crate::text::{
    hex, hex_range, law_hex_injective, law_hex_reads_back, law_hex_width,
    law_sixteen_digits_are_enough, reads, to_hex,
};
use crate::time::{age, can_elapse, is_reading, nanos, Clock};
use dashmap::DashMap;
use std::collections::hash_map::DefaultHasher;
use std::hash::Hasher;
use std::time::{Duration, Instant};
use vstd::prelude::*;
use vstd::set_lib::lemma_set_subset_finite;
use vstd::std_specs::hash::DefaultHasherAdditionalSpecFns;

verus! {

/// What a simulation found.
#[derive(Debug)]
pub enum SimulationResult {
    /// The transaction is safe to send.
    Success,
    /// The transaction would fail for the given reason: it must not be sent.
    Failed(String),
}

/// What a simulation found, with its reason as a sequence of characters.
pub enum SimulationView {
    Success,
    Failed(Seq<char>),
}

impl View for SimulationResult {
    type V = SimulationView;

    open spec fn view(&self) -> SimulationView {
        match self {
            SimulationResult::Success => SimulationView::Success,
            SimulationResult::Failed(reason) => SimulationView::Failed(reason@),
        }
    }
}

impl Clone for SimulationResult {
    fn clone(&self) -> (copy: Self)
        ensures
            copy@ == self@,
    {
        match self {
            SimulationResult::Success => SimulationResult::Success,
            SimulationResult::Failed(reason) => SimulationResult::Failed(reason.clone()),
        }
    }
}

/// What the cache keeps of one simulation. Its time is counted from the start of the cache.
#[derive(Debug)]
pub struct CacheEntry {
    result: SimulationResult,
    blockhash: Blockhash,
    cached_at: Duration,
}

/// What the cache keeps of one simulation; the time is in nanoseconds.
pub struct EntryView {
    pub result: SimulationView,
    pub blockhash: Seq<u8>,
    pub cached_at: nat,
}

impl View for CacheEntry {
    type V = EntryView;

    closed spec fn view(&self) -> EntryView {
        EntryView {
            result: self.result@,
            blockhash: self.blockhash@,
            cached_at: nanos(self.cached_at),
        }
    }
}

impl Clone for CacheEntry {
    fn clone(&self) -> (copy: Self)
        ensures
            copy@ == self@,
    {
        CacheEntry {
            result: self.result.clone(),
            blockhash: self.blockhash,
            cached_at: self.cached_at,
        }
    }
}

impl EntryView {
    /// Whether the entry has not outlived its time to live.
    pub open spec fn is_fresh(self, ttl: nat, now: nat) -> bool {
        age(now, self.cached_at) <= ttl
    }
}

impl CacheEntry {
    /// Whether the entry has not outlived its time to live.
    fn is_fresh(&self, ttl: &Duration, now: &Duration) -> (fresh: bool)
        ensures
            fresh == self@.is_fresh(nanos(*ttl), nanos(*now)),
    {
        now.as_nanos().saturating_sub(self.cached_at.as_nanos()) <= ttl.as_nanos()
    }
}

/// The `DashMap` of the crate `dashmap`.
#[verifier::external_type_specification]
#[verifier::external_body]
#[verifier::reject_recursive_types(K)]
#[verifier::reject_recursive_types(V)]
#[verifier::reject_recursive_types(S)]
pub struct ExDashMap<K, V, S>(DashMap<K, V, S>);

/// The entries that a map holds, each under the characters of its key.
pub uninterp spec fn contents(map: DashMap<String, CacheEntry>) -> Map<Seq<char>, EntryView>;

/// No entry under any key.
pub open spec fn no_entries() -> Map<Seq<char>, EntryView> {
    Map::empty()
}

/// Calls `DashMap::new`: the map holds nothing.
#[verifier::external_body]
fn map_new() -> (map: DashMap<String, CacheEntry>)
    ensures
        contents(map) == no_entries(),
{
    DashMap::new()
}

/// Calls `DashMap::get` and hands out a copy of what it finds under the key.
#[verifier::external_body]
fn map_get(map: &DashMap<String, CacheEntry>, key: &str) -> (found: Option<CacheEntry>)
    ensures
        match found {
            Some(entry) => contents(*map).contains_key(key@) && entry@ == contents(*map)[key@],
            None => !contents(*map).contains_key(key@),
        },
{
    match map.get(key) {
        Some(entry) => Some(entry.value().clone()),
        None => None,
    }
}

/// Calls `DashMap::insert`: the entry stands under the key, in place of any that stood there,
/// and the other keys keep theirs; there are finitely many. The exclusive reference rules out that
/// another thread changes the map meanwhile.
#[verifier::external_body]
fn map_insert(map: &mut DashMap<String, CacheEntry>, key: String, entry: CacheEntry)
    ensures
        contents(*final(map)) == contents(*old(map)).insert(key@, entry@),
        contents(*final(map)).dom().finite(),
{
    map.insert(key, entry);
}

/// Calls `DashMap::remove`: nothing stands under the key, and the other keys, of which there are
/// finitely many, keep their entries.
#[verifier::external_body]
fn map_remove(map: &mut DashMap<String, CacheEntry>, key: &str)
    ensures
        contents(*final(map)) == contents(*old(map)).remove(key@),
        contents(*final(map)).dom().finite(),
{
    map.remove(key);
}

/// Calls `DashMap::retain` with `CacheEntry::is_fresh`: the fresh entries stay as they are and
/// the others leave.
#[verifier::external_body]
fn map_retain_fresh(map: &mut DashMap<String, CacheEntry>, ttl: Duration, now: Duration)
    ensures
        contents(*final(map)) == fresh_entries(contents(*old(map)), nanos(ttl), nanos(now)),
{
    map.retain(|_key, entry| entry.is_fresh(&ttl, &now));
}

/// Whether a number is that of the entries, of which there are finitely many.
pub open spec fn counts(n: nat, entries: Map<Seq<char>, EntryView>) -> bool {
    entries.dom().finite() && n == entries.len()
}

/// Calls `DashMap::len`: the number of keys, of which there are finitely many.
#[verifier::external_body]
fn map_len(map: &DashMap<String, CacheEntry>) -> (n: usize)
    ensures
        counts(n as nat, contents(*map)),
{
    map.len()
}

/// Calls `DashMap::is_empty`: whether no key has an entry.
#[verifier::external_body]
fn map_is_empty(map: &DashMap<String, CacheEntry>) -> (empty: bool)
    ensures
        empty == (contents(*map) == no_entries()),
{
    map.is_empty()
}

/// The entries that have not outlived their time to live.
pub open spec fn fresh_entries(
    entries: Map<Seq<char>, EntryView>,
    ttl: nat,
    now: nat,
) -> Map<Seq<char>, EntryView> {
    Map::new(
        |key: Seq<char>| entries.contains_key(key) && entries[key].is_fresh(ttl, now),
        |key: Seq<char>| entries[key],
    )
}

/// The results of simulations, each under the key of its transaction.
pub struct PreflightCache {
    entries: DashMap<String, CacheEntry>,
    ttl: Duration,
    clock: Clock,
}

/// The entries of a cache, the time, in nanoseconds, for which each of them lives, and the moment
/// from which the clock of the cache counts.
pub struct CacheView {
    pub entries: Map<Seq<char>, EntryView>,
    pub ttl: nat,
    pub origin: Instant,
}

impl CacheView {
    /// Whether the cache holds nothing, its entries live for the given time, and its clock
    /// counts from a moment that was read.
    pub open spec fn is_new(self, ttl: nat) -> bool {
        self.entries == no_entries() && self.ttl == ttl && is_reading(self.origin)
    }

    /// Whether the clock of the cache can show the given time.
    pub open spec fn can_read(self, now: Duration) -> bool {
        can_elapse(self.origin, now)
    }

    /// What the cache answers at a given time: the result that stands under the key, where it
    /// was found against that very block hash and has not outlived its time to live.
    pub open spec fn lookup(self, key: Seq<char>, blockhash: Seq<u8>, now: nat) -> Option<
        SimulationView,
    > {
        if self.entries.contains_key(key) && self.entries[key].blockhash == blockhash
            && self.entries[key].is_fresh(self.ttl, now) {
            Some(self.entries[key].result)
        } else {
            None
        }
    }

    /// The cache with a result stored at a given time.
    pub open spec fn store(
        self,
        key: Seq<char>,
        result: SimulationView,
        blockhash: Seq<u8>,
        now: nat,
    ) -> CacheView {
        CacheView {
            entries: self.entries.insert(key, EntryView { result, blockhash, cached_at: now }),
            ..self
        }
    }

    /// The cache without the entry of a key.
    pub open spec fn forget(self, key: Seq<char>) -> CacheView {
        CacheView { entries: self.entries.remove(key), ..self }
    }

    /// The cache without the entries that have outlived their time to live.
    pub open spec fn evict(self, now: nat) -> CacheView {
        CacheView { entries: fresh_entries(self.entries, self.ttl, now), ..self }
    }
}

impl View for PreflightCache {
    type V = CacheView;

    closed spec fn view(&self) -> CacheView {
        CacheView { entries: contents(self.entries), ttl: nanos(self.ttl), origin: self.clock@ }
    }
}

/// The result of a lookup, with its reason as a sequence of characters.
pub open spec fn found_view(found: Option<SimulationResult>) -> Option<SimulationView> {
    match found {
        Some(result) => Some(result@),
        None => None,
    }
}

impl PreflightCache {
    /// Makes a cache whose entries live for a minute.
    pub fn new() -> (cache: Self)
        ensures
            cache@.is_new(60_000_000_000),
    {
        PreflightCache::with_ttl(Duration::from_secs(60))
    }

    /// Makes a cache whose entries live for the given time.
    pub fn with_ttl(ttl: Duration) -> (cache: Self)
        ensures
            cache@.is_new(nanos(ttl)),
    {
        PreflightCache { entries: map_new(), ttl, clock: Clock::start() }
    }

    /// The time on the clock of the cache.
    pub(crate) fn now(&self) -> (now: Duration)
        ensures
            self@.can_read(now),
    {
        self.clock.now()
    }

    /// Looks up the result for a transaction key and a block hash.
    pub fn get(&self, tx_key: &str, blockhash: &Blockhash) -> (found: Option<SimulationResult>)
        ensures
            exists|now: Duration| #[trigger]
                self@.can_read(now) && self@.lookup(tx_key@, blockhash@, nanos(now)) == found_view(
                    found,
                ),
    {
        let now = self.now();
        self.get_at(tx_key, blockhash, now)
    }

    /// Looks up the result for a transaction key and a block hash at a given time.
    pub fn get_at(&self, tx_key: &str, blockhash: &Blockhash, now: Duration) -> (found: Option<
        SimulationResult,
    >)
        ensures
            found_view(found) == self@.lookup(tx_key@, blockhash@, nanos(now)),
    {
        match map_get(&self.entries, tx_key) {
            Some(entry) => {
                if !entry.blockhash.same(blockhash) || !entry.is_fresh(&self.ttl, &now) {
                    None
                } else {
                    Some(entry.result)
                }
            },
            None => None,
        }
    }

    /// Stores a result, in place of any that was stored under the key before.
    pub fn insert(&mut self, tx_key: String, result: SimulationResult, blockhash: Blockhash)
        ensures
            exists|now: Duration| #[trigger]
                old(self)@.can_read(now) && final(self)@ == old(self)@.store(
                    tx_key@,
                    result@,
                    blockhash@,
                    nanos(now),
                ),
            final(self)@.entries.dom().finite(),
            final(self)@.entries.len() == old(self)@.entries.len() + (
            if old(self)@.entries.contains_key(tx_key@) {
                0int
            } else {
                1int
            }),
    {
        let now = self.now();
        self.insert_at(tx_key, result, blockhash, now);
    }

    /// Stores a result at a given time, in place of any that was stored under the key before.
    pub fn insert_at(
        &mut self,
        tx_key: String,
        result: SimulationResult,
        blockhash: Blockhash,
        now: Duration,
    )
        ensures
            final(self)@ == old(self)@.store(tx_key@, result@, blockhash@, nanos(now)),
            final(self)@.entries.dom().finite(),
            final(self)@.entries.len() == old(self)@.entries.len() + (
            if old(self)@.entries.contains_key(tx_key@) {
                0int
            } else {
                1int
            }),
    {
        map_insert(&mut self.entries, tx_key, CacheEntry { result, blockhash, cached_at: now });
        proof {
            lemma_set_subset_finite(self@.entries.dom(), old(self)@.entries.dom());
        }
    }

    /// Removes the entry of a transaction key.
    pub fn remove(&mut self, tx_key: &str)
        ensures
            final(self)@ == old(self)@.forget(tx_key@),
            final(self)@.entries.dom().finite(),
            final(self)@.entries.len() == old(self)@.entries.len() - (
            if old(self)@.entries.contains_key(tx_key@) {
                1int
            } else {
                0int
            }),
    {
        map_remove(&mut self.entries, tx_key);
        proof {
            lemma_set_subset_finite(
                self@.entries.dom().insert(tx_key@),
                old(self)@.entries.dom(),
            );
        }
    }

    /// Removes the entries that have outlived their time to live.
    pub fn evict_expired(&mut self)
        ensures
            exists|now: Duration| #[trigger]
                old(self)@.can_read(now) && final(self)@ == old(self)@.evict(nanos(now)),
    {
        let now = self.now();
        self.evict_expired_at(now);
    }

    /// Removes the entries that have outlived their time to live at a given time.
    pub fn evict_expired_at(&mut self, now: Duration)
        ensures
            final(self)@ == old(self)@.evict(nanos(now)),
    {
        map_retain_fresh(&mut self.entries, self.ttl, now);
    }

    /// How many entries the cache holds.
    pub fn len(&self) -> (n: usize)
        ensures
            self@.entries.dom().finite(),
            n == self@.entries.len(),
            n == 0 <==> self@.entries == no_entries(),
    {
        proof {
            if self@.entries.dom().finite() && self@.entries.len() == 0 {
                assert(self@.entries.dom() =~= Set::empty());
                assert(self@.entries =~= no_entries());
            }
        }
        map_len(&self.entries)
    }

    /// Whether the cache holds no entry.
    pub fn is_empty(&self) -> (empty: bool)
        ensures
            empty == (self@.entries == no_entries()),
    {
        map_is_empty(&self.entries)
    }
}

impl Default for PreflightCache {
    fn default() -> (cache: Self)
        ensures
            cache@.is_new(60_000_000_000),
    {
        PreflightCache::new()
    }
}

/// What a hasher has been fed once the `Hash` of a byte slice has written to it.
pub uninterp spec fn slice_writes(before: Seq<Seq<u8>>, bytes: Seq<u8>) -> Seq<Seq<u8>>;

/// Calls `<[u8] as std::hash::Hash>::hash`. What it writes depends on the bytes alone, on machines
/// with one word size and byte order.
#[verifier::external_body]
fn feed_hasher(bytes: &[u8], hasher: &mut DefaultHasher)
    ensures
        final(hasher)@ == slice_writes(old(hasher)@, bytes@),
{
    std::hash::Hash::hash(bytes, hasher);
}

/// The number that a message is hashed to.
pub open spec fn message_digest(bytes: Seq<u8>) -> u64 {
    DefaultHasher::spec_finish(slice_writes(Seq::empty(), bytes))
}

/// The key of a message: its digest in sixteen hexadecimal digits.
pub open spec fn cache_key(bytes: Seq<u8>) -> Seq<char> {
    hex(message_digest(bytes) as nat, 16)
}

/// Makes the cache key of a message from its bytes. Signatures are no part of a message, but its
/// block hash is: a transaction that is signed anew keeps its key only where the bytes are those
/// of its message with the block hash left blank, as
/// [`Transaction::message_key`](crate::transaction::Transaction::message_key) takes them.
pub fn make_cache_key(tx_message_bytes: &[u8]) -> (key: String)
    ensures
        key@ == cache_key(tx_message_bytes@),
{
    let mut hasher = DefaultHasher::new();
    feed_hasher(tx_message_bytes, &mut hasher);
    to_hex(hasher.finish(), 16)
}

/// What was stored is found again under the same block hash until its time to live has passed,
/// and not after.
pub proof fn law_stored_is_found(
    cache: CacheView,
    key: Seq<char>,
    result: SimulationView,
    blockhash: Seq<u8>,
    now: nat,
    later: nat,
)
    ensures
        later <= now + cache.ttl ==> cache.store(key, result, blockhash, now).lookup(
            key,
            blockhash,
            later,
        ) == Some(result),
        later > now + cache.ttl ==> cache.store(key, result, blockhash, now).lookup(
            key,
            blockhash,
            later,
        ) is None,
{
}

/// What was stored under one block hash is not found under another.
pub proof fn law_other_blockhash_is_missing(
    cache: CacheView,
    key: Seq<char>,
    result: SimulationView,
    blockhash: Seq<u8>,
    other: Seq<u8>,
    now: nat,
    later: nat,
)
    requires
        other != blockhash,
    ensures
        cache.store(key, result, blockhash, now).lookup(key, other, later) is None,
{
}

/// Storing and removing under one key changes nothing of what is found under another.
pub proof fn law_other_keys_are_untouched(
    cache: CacheView,
    key: Seq<char>,
    other: Seq<char>,
    result: SimulationView,
    stored: Seq<u8>,
    asked: Seq<u8>,
    now: nat,
    later: nat,
)
    requires
        other != key,
    ensures
        cache.store(key, result, stored, now).lookup(other, asked, later) == cache.lookup(
            other,
            asked,
            later,
        ),
        cache.forget(key).lookup(other, asked, later) == cache.lookup(other, asked, later),
{
}

/// What was removed is not found.
pub proof fn law_removed_is_missing(
    cache: CacheView,
    key: Seq<char>,
    blockhash: Seq<u8>,
    later: nat,
)
    ensures
        cache.forget(key).lookup(key, blockhash, later) is None,
{
}

/// Eviction is not noticed: from then on every lookup finds what it would have found without
/// it.
pub proof fn law_eviction_is_not_noticed(
    cache: CacheView,
    key: Seq<char>,
    blockhash: Seq<u8>,
    now: nat,
    later: nat,
)
    requires
        now <= later,
    ensures
        cache.evict(now).lookup(key, blockhash, later) == cache.lookup(key, blockhash, later),
{
}

/// Eviction removes every entry that has outlived its time to live and no other.
pub proof fn law_eviction_removes_the_expired(cache: CacheView, key: Seq<char>, now: nat)
    ensures
        cache.evict(now).entries.contains_key(key) <==> cache.entries.contains_key(key)
            && cache.entries[key].is_fresh(cache.ttl, now),
        cache.evict(now).entries.contains_key(key) ==> cache.evict(now).entries[key]
            == cache.entries[key],
{
}

/// Storing adds one entry where the key had none and none where it had one; removing takes the
/// entry of the key away.
pub proof fn law_len_counts_keys(
    cache: CacheView,
    key: Seq<char>,
    result: SimulationView,
    blockhash: Seq<u8>,
    now: nat,
)
    requires
        cache.entries.dom().finite(),
    ensures
        cache.store(key, result, blockhash, now).entries.dom().finite(),
        cache.store(key, result, blockhash, now).entries.len() == cache.entries.len() + (
        if cache.entries.contains_key(key) {
            0int
        } else {
            1int
        }),
        cache.forget(key).entries.dom().finite(),
        cache.forget(key).entries.len() == cache.entries.len() - (if cache.entries.contains_key(
            key,
        ) {
            1int
        } else {
            0int
        }),
        cache.entries == no_entries() <==> cache.entries.len() == 0,
{
    if cache.entries.len() == 0 {
        assert(cache.entries.dom() =~= Set::empty());
        assert(cache.entries =~= no_entries());
    }
}

/// A key has sixteen characters.
pub proof fn law_key_width(bytes: Seq<u8>)
    ensures
        cache_key(bytes).len() == 16,
{
    law_hex_width(message_digest(bytes) as nat, 16);
}

/// Two messages have the same key exactly where they have the same digest; one message always
/// has the same key.
pub proof fn law_key_tells_digests_apart(left: Seq<u8>, right: Seq<u8>)
    ensures
        cache_key(left) == cache_key(right) <==> message_digest(left) == message_digest(right),
        left == right ==> cache_key(left) == cache_key(right),
{
    if cache_key(left) == cache_key(right) {
        reveal_with_fuel(hex_range, 17);
        law_hex_injective(message_digest(left) as nat, message_digest(right) as nat, 16);
    }
}

/// A lookup finds a result exactly where an entry stands under the key, was stored for the very
/// block hash, and is no older than the time to live; the result is that of the entry.
pub proof fn law_lookup_finds_the_entry(
    cache: CacheView,
    key: Seq<char>,
    blockhash: Seq<u8>,
    now: nat,
)
    ensures
        cache.lookup(key, blockhash, now) is Some <==> {
            &&& cache.entries.contains_key(key)
            &&& cache.entries[key].blockhash == blockhash
            &&& now <= cache.entries[key].cached_at + cache.ttl
        },
        cache.lookup(key, blockhash, now) matches Some(result) ==> result
            == cache.entries[key].result,
{
}

/// Storing puts one entry under its key, with the result, the block hash and the time as they were
/// given; removing takes the entry of the key away; eviction takes exactly those away that are
/// older than the time to live. Every other entry stays as it is, and so do the time to live and
/// the clock.
pub proof fn law_entries_change_one_by_one(
    cache: CacheView,
    key: Seq<char>,
    other: Seq<char>,
    result: SimulationView,
    blockhash: Seq<u8>,
    now: nat,
)
    ensures
        ({
            let stored = cache.store(key, result, blockhash, now);
            let forgotten = cache.forget(key);
            let evicted = cache.evict(now);
            &&& stored.entries.contains_key(key)
            &&& stored.entries[key].result == result
            &&& stored.entries[key].blockhash == blockhash
            &&& stored.entries[key].cached_at == now
            &&& !forgotten.entries.contains_key(key)
            &&& other != key ==> stored.entries.contains_key(other)
                == cache.entries.contains_key(other) && forgotten.entries.contains_key(other)
                == cache.entries.contains_key(other)
            &&& other != key && cache.entries.contains_key(other) ==> stored.entries[other]
                == cache.entries[other] && forgotten.entries[other] == cache.entries[other]
            &&& evicted.entries.contains_key(other) <==> cache.entries.contains_key(other) && now
                <= cache.entries[other].cached_at + cache.ttl
            &&& evicted.entries.contains_key(other) ==> evicted.entries[other]
                == cache.entries[other]
            &&& stored.ttl == cache.ttl && forgotten.ttl == cache.ttl && evicted.ttl == cache.ttl
            &&& stored.origin == cache.origin && forgotten.origin == cache.origin && evicted.origin
                == cache.origin
        }),
{
}

/// A new cache holds nothing and keeps its entries for the time that it was given.
pub proof fn law_new_cache_is_empty(cache: CacheView, ttl: nat, key: Seq<char>)
    requires
        cache.is_new(ttl),
    ensures
        !cache.entries.contains_key(key),
        cache.ttl == ttl,
{
}

/// The key of a message, read as a number of base sixteen, is what the hasher makes of all bytes
/// of the message and of nothing before them.
pub proof fn law_key_is_the_digest(bytes: Seq<u8>)
    ensures
        reads(cache_key(bytes), 16) == DefaultHasher::spec_finish(
            slice_writes(Seq::empty(), bytes),
        ),
        cache_key(bytes).len() == 16,
{
    law_key_width(bytes);
    law_sixteen_digits_are_enough(message_digest(bytes));
    law_hex_reads_back(message_digest(bytes) as nat, 16);
}

} // verus!
