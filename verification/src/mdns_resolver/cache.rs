//! The result cache: record lists by owner name and record type, each kept
//! for a fixed span of time.
//!
//! An entry is valid while the time since it was stored is less than the
//! span. Storing an entry drops every entry that is no longer valid.

use crate::rr::{clone_records, models, option_models, Record, RecordModel, RecordType};
use crate::time::{nanos_since, span_between, Duration};
use std::time::Instant;
use vstd::prelude::*;

verus! {

/// A cached record list as the contracts see it: the records, and the time
/// at which they were stored, in nanoseconds on the clock of the cache.
pub struct EntryModel {
    pub records: Seq<RecordModel>,
    pub timestamp: nat,
}

/// A cached record list.
#[derive(Debug)]
pub struct CacheEntry {
    /// The records, in the order in which they were stored.
    pub records: Vec<Record>,
    /// When they were stored, on the clock of the cache.
    pub timestamp: Duration,
}

impl Clone for CacheEntry {
    fn clone(&self) -> (r: CacheEntry)
        ensures
            r@ == self@,
    {
        CacheEntry { records: clone_records(&self.records), timestamp: self.timestamp }
    }
}

impl View for CacheEntry {
    type V = EntryModel;

    open spec fn view(&self) -> EntryModel {
        EntryModel { records: models(self.records@), timestamp: self.timestamp.nanos as nat }
    }
}

/// One place in the cache: a key and its entry.
struct Slot {
    name: String,
    record_type: RecordType,
    entry: CacheEntry,
}

/// The cache.
pub struct Cache {
    origin: Instant,
    slots: Vec<Slot>,
    ttl: Duration,
}

/// The entry is valid at `now` in a cache that keeps entries for `ttl`.
pub open spec fn fresh(entry: EntryModel, now: nat, ttl: nat) -> bool {
    span_between(entry.timestamp, now) < ttl
}

/// What a lookup of `key` at `now` gives.
pub open spec fn lookup(
    entries: Map<(Seq<char>, RecordType), EntryModel>,
    key: (Seq<char>, RecordType),
    now: nat,
    ttl: nat,
) -> Option<Seq<RecordModel>> {
    if entries.dom().contains(key) && fresh(entries[key], now, ttl) {
        Some(entries[key].records)
    } else {
        None
    }
}

/// The entries that are valid at `now`.
pub open spec fn pruned(entries: Map<(Seq<char>, RecordType), EntryModel>, now: nat, ttl: nat) -> Map<
    (Seq<char>, RecordType),
    EntryModel,
> {
    Map::new(
        |k: (Seq<char>, RecordType)| entries.dom().contains(k) && fresh(entries[k], now, ttl),
        |k: (Seq<char>, RecordType)| entries[k],
    )
}

/// The entries after `records` were stored under `key` at `now`.
pub open spec fn stored(
    entries: Map<(Seq<char>, RecordType), EntryModel>,
    key: (Seq<char>, RecordType),
    records: Seq<RecordModel>,
    now: nat,
    ttl: nat,
) -> Map<(Seq<char>, RecordType), EntryModel> {
    pruned(entries.insert(key, EntryModel { records, timestamp: now }), now, ttl)
}

/// What was stored is found again, in the order in which it was stored, as
/// long as less than the span has passed.
pub proof fn lemma_stored_is_found(
    entries: Map<(Seq<char>, RecordType), EntryModel>,
    key: (Seq<char>, RecordType),
    records: Seq<RecordModel>,
    stored_at: nat,
    asked_at: nat,
    ttl: nat,
)
    requires
        span_between(stored_at, asked_at) < ttl,
    ensures
        lookup(stored(entries, key, records, stored_at, ttl), key, asked_at, ttl) == Some(records),
{
}

/// What was stored is no longer found once the span has passed.
pub proof fn lemma_stored_expires(
    entries: Map<(Seq<char>, RecordType), EntryModel>,
    key: (Seq<char>, RecordType),
    records: Seq<RecordModel>,
    stored_at: nat,
    asked_at: nat,
    ttl: nat,
)
    requires
        span_between(stored_at, asked_at) >= ttl,
    ensures
        lookup(stored(entries, key, records, stored_at, ttl), key, asked_at, ttl) is None,
{
}

/// A cache that keeps nothing for any time never finds anything.
pub proof fn lemma_zero_ttl_finds_nothing(
    entries: Map<(Seq<char>, RecordType), EntryModel>,
    key: (Seq<char>, RecordType),
    now: nat,
)
    ensures
        lookup(entries, key, now, 0) is None,
{
}

spec fn slot_key(slot: Slot) -> (Seq<char>, RecordType) {
    (slot.name@, slot.record_type)
}

spec fn holds_key(slots: Seq<Slot>, key: (Seq<char>, RecordType)) -> bool {
    exists|i: int| 0 <= i < slots.len() && slot_key(#[trigger] slots[i]) == key
}

spec fn place_of(slots: Seq<Slot>, key: (Seq<char>, RecordType)) -> int {
    choose|i: int| 0 <= i < slots.len() && slot_key(#[trigger] slots[i]) == key
}

spec fn unique_keys(slots: Seq<Slot>) -> bool {
    forall|i: int, j: int|
        0 <= i < j < slots.len() ==> slot_key(#[trigger] slots[i]) != slot_key(#[trigger] slots[j])
}

spec fn slots_map(slots: Seq<Slot>) -> Map<(Seq<char>, RecordType), EntryModel> {
    Map::new(
        |k: (Seq<char>, RecordType)| holds_key(slots, k),
        |k: (Seq<char>, RecordType)| slots[place_of(slots, k)].entry@,
    )
}

spec fn taken_from(slot: Slot, slots: Seq<Slot>, from: int) -> bool {
    exists|i: int| from <= i < slots.len() && #[trigger] slots[i] == slot
}

spec fn place_from(slot: Slot, slots: Seq<Slot>, from: int) -> int {
    choose|i: int| from <= i < slots.len() && #[trigger] slots[i] == slot
}

proof fn lemma_slot_is_mapped(slots: Seq<Slot>, i: int)
    requires
        unique_keys(slots),
        0 <= i < slots.len(),
    ensures
        slots_map(slots).dom().contains(slot_key(slots[i])),
        slots_map(slots)[slot_key(slots[i])] == slots[i].entry@,
{
    let key = slot_key(slots[i]);
    assert(holds_key(slots, key));
    let at = place_of(slots, key);
    if at < i {
        assert(slot_key(slots[at]) != slot_key(slots[i]));
    } else if i < at {
        assert(slot_key(slots[i]) != slot_key(slots[at]));
    }
}

impl View for Cache {
    type V = Map<(Seq<char>, RecordType), EntryModel>;

    closed spec fn view(&self) -> Map<(Seq<char>, RecordType), EntryModel> {
        slots_map(self.slots@)
    }
}

impl Cache {
    #[verifier::type_invariant]
    spec fn well_formed(&self) -> bool {
        unique_keys(self.slots@)
    }

    /// The span for which entries are kept, in nanoseconds.
    pub closed spec fn ttl_nanos(&self) -> nat {
        self.ttl.nanos as nat
    }

    /// An empty cache that keeps entries for `ttl`.
    pub fn new(ttl: Duration) -> (cache: Cache)
        ensures
            cache@ == Map::<(Seq<char>, RecordType), EntryModel>::empty(),
            cache.ttl_nanos() == ttl.nanos,
    {
        let cache = Cache { origin: Instant::now(), slots: Vec::new(), ttl };
        assert(cache@ =~= Map::<(Seq<char>, RecordType), EntryModel>::empty());
        cache
    }

    /// The span for which entries are kept.
    pub fn ttl(&self) -> (ttl: Duration)
        ensures
            ttl.nanos == self.ttl_nanos(),
    {
        self.ttl
    }

    /// The time on the clock of the cache.
    pub fn now(&self) -> (now: Duration) {
        Duration::from_nanos(nanos_since(&self.origin))
    }

    /// The records stored under the name and type, if the entry is valid at
    /// `now`.
    pub fn get_at(&self, name: &str, record_type: RecordType, now: Duration) -> (r: Option<
        Vec<Record>,
    >)
        ensures
            option_models(r) == lookup(
                self@,
                (name@, record_type),
                now.nanos as nat,
                self.ttl_nanos(),
            ),
    {
        proof {
            use_type_invariant(self);
        }
        let wanted = name.to_owned();
        let mut i: usize = 0;
        while i < self.slots.len()
            invariant
                i <= self.slots.len(),
                unique_keys(self.slots@),
                wanted@ == name@,
                forall|j: int| 0 <= j < i ==> slot_key(#[trigger] self.slots@[j]) != (name@, record_type),
            decreases self.slots.len() - i,
        {
            let slot = &self.slots[i];
            if slot.record_type == record_type && slot.name == wanted {
                proof {
                    lemma_slot_is_mapped(self.slots@, i as int);
                }
                if now.saturating_sub(slot.entry.timestamp).nanos < self.ttl.nanos {
                    return Some(clone_records(&slot.entry.records));
                }
                return None;
            }
            i += 1;
        }
        None
    }

    /// Stores the records under the name and type at `now`, then drops every
    /// entry that is not valid at `now`.
    pub fn insert_at(&mut self, name: &str, record_type: RecordType, records: Vec<Record>, now: Duration)
        ensures
            final(self)@ == stored(
                old(self)@,
                (name@, record_type),
                models(records@),
                now.nanos as nat,
                old(self).ttl_nanos(),
            ),
            final(self).ttl_nanos() == old(self).ttl_nanos(),
    {
        proof {
            use_type_invariant(&*self);
        }
        let ghost key = (name@, record_type);
        let ghost before = self.slots@;
        let ghost ttl = self.ttl.nanos as nat;
        let ghost at = now.nanos as nat;
        let limit: u128 = self.ttl.nanos;
        let mut rest: Vec<Slot> = Vec::new();
        std::mem::swap(&mut self.slots, &mut rest);
        let wanted = name.to_owned();
        let mut kept: Vec<Slot> = Vec::new();
        while rest.len() > 0
            invariant
                rest@.len() <= before.len(),
                rest@ == before.take(rest@.len() as int),
                unique_keys(before),
                wanted@ == name@,
                key == (name@, record_type),
                ttl == limit,
                at == now.nanos,
                unique_keys(kept@),
                forall|j: int|
                    0 <= j < kept@.len() ==> {
                        &&& slot_key(#[trigger] kept@[j]) != key
                        &&& fresh(kept@[j].entry@, at, ttl)
                        &&& taken_from(kept@[j], before, rest@.len() as int)
                    },
                forall|i: int|
                    rest@.len() <= i < before.len() && slot_key(#[trigger] before[i]) != key
                        && fresh(before[i].entry@, at, ttl) ==> kept@.contains(before[i]),
            decreases rest.len(),
        {
            let ghost n = rest@.len() - 1;
            let ghost kept_before = kept@;
            let slot = rest.pop().unwrap();
            assert(slot == before[n]);
            let same_key = slot.record_type == record_type && slot.name == wanted;
            let valid = now.saturating_sub(slot.entry.timestamp).nanos < limit;
            if !same_key && valid {
                kept.push(slot);
                assert(kept@[kept@.len() - 1] == before[n]);
                assert forall|a: int, b: int| 0 <= a < b < kept@.len() implies slot_key(
                    #[trigger] kept@[a],
                ) != slot_key(#[trigger] kept@[b]) by {
                    if b == kept@.len() - 1 {
                        assert(taken_from(kept_before[a], before, n + 1));
                        let i = place_from(kept_before[a], before, n + 1);
                        assert(slot_key(before[n]) != slot_key(before[i]));
                    } else {
                        assert(kept_before[a] == kept@[a]);
                        assert(kept_before[b] == kept@[b]);
                    }
                }
                assert forall|j: int| 0 <= j < kept@.len() implies {
                    &&& slot_key(#[trigger] kept@[j]) != key
                    &&& fresh(kept@[j].entry@, at, ttl)
                    &&& taken_from(kept@[j], before, n)
                } by {
                    if j < kept_before.len() {
                        assert(kept@[j] == kept_before[j]);
                        assert(taken_from(kept_before[j], before, n + 1));
                        let i = place_from(kept_before[j], before, n + 1);
                        assert(before[i] == kept@[j]);
                    } else {
                        assert(before[n] == kept@[j]);
                    }
                }
                assert forall|i: int|
                    n <= i < before.len() && slot_key(#[trigger] before[i]) != key && fresh(
                        before[i].entry@,
                        at,
                        ttl,
                    ) implies kept@.contains(before[i]) by {
                    if i == n {
                        assert(kept@[kept@.len() - 1] == before[i]);
                    } else {
                        assert(kept_before.contains(before[i]));
                        let j = choose|j: int| 0 <= j < kept_before.len() && kept_before[j] == before[i];
                        assert(kept@[j] == before[i]);
                    }
                }
            } else {
                assert forall|j: int| 0 <= j < kept@.len() implies taken_from(
                    #[trigger] kept@[j],
                    before,
                    n,
                ) by {
                    assert(taken_from(kept@[j], before, n + 1));
                    let i = place_from(kept@[j], before, n + 1);
                    assert(before[i] == kept@[j]);
                }
            }
            assert(rest@ == before.take(rest@.len() as int));
        }
        let ghost survivors = kept@;
        if limit > 0 {
            let entry = CacheEntry { records, timestamp: now };
            kept.push(Slot { name: wanted, record_type, entry });
            assert forall|a: int, b: int| 0 <= a < b < kept@.len() implies slot_key(
                #[trigger] kept@[a],
            ) != slot_key(#[trigger] kept@[b]) by {
                assert(kept@[a] == survivors[a]);
                if b < survivors.len() {
                    assert(kept@[b] == survivors[b]);
                }
            }
        }
        let ghost after = kept@;
        self.slots = kept;
        proof {
            let goal = stored(slots_map(before), key, models(records@), at, ttl);
            let got = slots_map(after);
            assert forall|k: (Seq<char>, RecordType)| got.dom().contains(k) implies goal.dom().contains(
                k,
            ) && got[k] == goal[k] by {
                let j = place_of(after, k);
                lemma_slot_is_mapped(after, j);
                if j < survivors.len() {
                    assert(after[j] == survivors[j]);
                    assert(taken_from(survivors[j], before, 0));
                    let i = place_from(survivors[j], before, 0);
                    lemma_slot_is_mapped(before, i);
                }
            }
            assert forall|k: (Seq<char>, RecordType)| goal.dom().contains(k) implies got.dom().contains(
                k,
            ) by {
                if k == key {
                    assert(slot_key(after[after.len() - 1]) == key);
                } else {
                    let i = place_of(before, k);
                    lemma_slot_is_mapped(before, i);
                    assert(survivors.contains(before[i]));
                    let j = choose|j: int| 0 <= j < survivors.len() && survivors[j] == before[i];
                    assert(after[j] == survivors[j]);
                    assert(slot_key(after[j]) == k);
                }
            }
            assert(got =~= goal);
        }
    }

    /// The records stored under the name and type, if the entry is valid at
    /// the present time.
    pub fn get(&self, name: &str, record_type: RecordType) -> (r: Option<Vec<Record>>)
        ensures
            exists|now: nat|
                option_models(r) == #[trigger] lookup(
                    self@,
                    (name@, record_type),
                    now,
                    self.ttl_nanos(),
                ),
    {
        let now = self.now();
        let r = self.get_at(name, record_type, now);
        assert(option_models(r) == lookup(
            self@,
            (name@, record_type),
            now.nanos as nat,
            self.ttl_nanos(),
        ));
        r
    }

    /// Stores the records under the name and type at the present time, then
    /// drops every entry that is no longer valid.
    pub fn insert(&mut self, name: &str, record_type: RecordType, records: Vec<Record>)
        ensures
            exists|now: nat|
                final(self)@ == #[trigger] stored(
                    old(self)@,
                    (name@, record_type),
                    models(records@),
                    now,
                    old(self).ttl_nanos(),
                ),
            final(self).ttl_nanos() == old(self).ttl_nanos(),
    {
        let now = self.now();
        self.insert_at(name, record_type, records, now);
    }
}

} // verus!
