//! LRU-based memory manager over shared `DashMap` tables.
//!
//! Reservations, recency stamps and residency flags live in three tables keyed
//! by model id. Recency is a stamp from a monotonic clock that the manager
//! keeps strictly increasing, so least-recently-used order is exact.

use vstd::prelude::*;
use std::time::Instant;

use crate::clock::{advance_stamp, elapsed_since, instant_now, nanos_u64, next_stamp};
use crate::kernel::{EngineError, MemoryManager};
use crate::shared_map::{
    byte_table, byte_table_entries, byte_table_get, byte_table_insert, byte_table_new,
    byte_table_remove, flag_table, flag_table_get, flag_table_insert, flag_table_new,
    flag_table_remove, lemma_map_sum_remove, lemma_pairs_sum, lists_bytes, map_sum, no_bytes,
    no_flags, pairs_sum, ByteTable, FlagTable,
};
use crate::text::owned;

verus! {

/// A listing of `(model id, bytes)` pairs, as contracts speak of it.
pub type Listing = Seq<(Seq<char>, u64)>;

/// The recency stamp `id` is ordered by: its recorded stamp, or `now` when it
/// has none (so an untouched model counts as the most recent).
pub open spec fn effective_stamp(stamps: Map<Seq<char>, u64>, id: Seq<char>, now: u64) -> u64 {
    if stamps.contains_key(id) {
        stamps[id]
    } else {
        now
    }
}

/// Whether `id` is marked resident (never evicted).
pub open spec fn is_resident(flags: Map<Seq<char>, bool>, id: Seq<char>) -> bool {
    flags.contains_key(id) && flags[id]
}

/// Whether `list` is an eviction order for the tables at time `now`: every
/// non-resident allocation exactly once with its byte count, oldest first.
pub open spec fn is_lru_order(
    list: Listing,
    allocs: Map<Seq<char>, u64>,
    stamps: Map<Seq<char>, u64>,
    flags: Map<Seq<char>, bool>,
    now: u64,
) -> bool {
    &&& forall|i: int, j: int| 0 <= i < j < list.len() ==> list[i].0 != list[j].0
    &&& forall|i: int|
        0 <= i < list.len() ==> #[trigger] allocs.contains_key(list[i].0) && allocs[list[i].0]
            == list[i].1 && !is_resident(flags, list[i].0)
    &&& forall|k: Seq<char>|
        #[trigger] allocs.contains_key(k) && !is_resident(flags, k) ==> exists|i: int|
            0 <= i < list.len() && list[i].0 == k
    &&& forall|i: int, j: int|
        #![trigger list[i], list[j]]
        0 <= i < j < list.len() ==> effective_stamp(stamps, list[i].0, now) <= effective_stamp(
            stamps,
            list[j].0,
            now,
        )
}

/// The models evicted when walking `list` from index `i` (having freed
/// `freed` bytes so far) until `available + freed` covers `required`, and the
/// bytes freed in the end.
pub open spec fn plan_from(list: Listing, i: int, available: int, required: int, freed: int) -> (
    Seq<Seq<char>>,
    int,
)
    decreases list.len() - i,
{
    if i >= list.len() || i < 0 || available + freed >= required {
        (Seq::empty(), freed)
    } else {
        let rest = plan_from(list, i + 1, available, required, freed + list[i].1);
        (seq![list[i].0] + rest.0, rest.1)
    }
}

/// The listing a vector of `(id, bytes)` pairs holds.
pub open spec fn listing_of(v: Seq<(String, u64)>) -> Listing {
    v.map_values(|p: (String, u64)| (p.0@, p.1))
}

/// Sum of the byte counts of a listing.
pub open spec fn listing_sum(list: Listing) -> int
    decreases list.len(),
{
    if list.len() == 0 {
        0
    } else {
        listing_sum(list.drop_last()) + list.last().1
    }
}

/// LRU memory manager over shared tables.
pub struct MemoryManagerImpl {
    total: u64,
    allocations: ByteTable,
    last_used: ByteTable,
    resident: FlagTable,
    origin: Instant,
    clock: u64,
}

impl MemoryManagerImpl {
    /// Reservations by model id.
    pub closed spec fn allocs(&self) -> Map<Seq<char>, u64> {
        byte_table(self.allocations)
    }

    /// Recency stamps by model id.
    pub closed spec fn stamps(&self) -> Map<Seq<char>, u64> {
        byte_table(self.last_used)
    }

    /// Residency flags by model id.
    pub closed spec fn flags(&self) -> Map<Seq<char>, bool> {
        flag_table(self.resident)
    }

    /// Total memory in bytes.
    pub closed spec fn total(&self) -> u64 {
        self.total
    }

    /// The last recency stamp issued.
    pub closed spec fn clock(&self) -> u64 {
        self.clock
    }

    /// Bytes reserved across all models.
    pub open spec fn used(&self) -> int {
        map_sum(self.allocs())
    }

    /// Bytes still free (zero when over-committed).
    pub open spec fn available(&self) -> int {
        if self.used() >= self.total() {
            0
        } else {
            self.total() - self.used()
        }
    }

    #[verifier::type_invariant]
    spec fn inv(&self) -> bool {
        &&& byte_table(self.allocations).dom().finite()
        &&& map_sum(byte_table(self.allocations)) <= u64::MAX
        &&& forall|k: Seq<char>|
            #[trigger] byte_table(self.last_used).contains_key(k) ==> byte_table(self.last_used)[k]
                <= self.clock
    }

    /// A manager of `total_bytes` with no reservations.
    pub fn new(total_bytes: u64) -> (r: Self)
        ensures
            r.total() == total_bytes,
            r.allocs() == no_bytes(),
            r.stamps() == no_bytes(),
            r.flags() == no_flags(),
            r.clock() == 0,
    {
        let allocations = byte_table_new();
        proof {
            assert(byte_table(allocations).dom() =~= Set::empty());
            assert(map_sum(byte_table(allocations)) == 0);
        }
        MemoryManagerImpl {
            total: total_bytes,
            allocations,
            last_used: byte_table_new(),
            resident: flag_table_new(),
            origin: instant_now(),
            clock: 0,
        }
    }

    /// Issue the next recency stamp.
    fn stamp(&mut self) -> (r: u64)
        ensures
            r == final(self).clock(),
            r >= old(self).clock(),
            old(self).clock() < u64::MAX ==> r > old(self).clock(),
            final(self).total() == old(self).total(),
            final(self).allocs() == old(self).allocs(),
            final(self).stamps() == old(self).stamps(),
            final(self).flags() == old(self).flags(),
    {
        proof {
            use_type_invariant(&*self);
        }
        let observed = nanos_u64(elapsed_since(&self.origin));
        let s = advance_stamp(self.clock, observed);
        self.clock = s;
        s
    }

    /// Record `model_id` as used now.
    pub fn touch(&mut self, model_id: &str)
        ensures
            final(self).total() == old(self).total(),
            final(self).allocs() == old(self).allocs(),
            final(self).flags() == old(self).flags(),
            final(self).stamps() == old(self).stamps().insert(model_id@, final(self).clock()),
            final(self).clock() >= old(self).clock(),
            old(self).clock() < u64::MAX ==> final(self).clock() > old(self).clock(),
    {
        let s = self.stamp();
        proof {
            use_type_invariant(&*self);
        }
        let _ = byte_table_insert(&mut self.last_used, owned(model_id), s);
    }

    /// Mark `model_id` as resident (never evicted) or not.
    pub fn set_resident(&mut self, model_id: &str, is_resident: bool)
        ensures
            final(self).total() == old(self).total(),
            final(self).allocs() == old(self).allocs(),
            final(self).stamps() == old(self).stamps(),
            final(self).clock() == old(self).clock(),
            final(self).flags() == old(self).flags().insert(model_id@, is_resident),
    {
        proof {
            use_type_invariant(&*self);
        }
        let _ = flag_table_insert(&mut self.resident, owned(model_id), is_resident);
    }

    /// Sum of the reservations.
    fn sum_allocations(&self) -> (r: u64)
        ensures
            r == self.used(),
    {
        proof {
            use_type_invariant(self);
        }
        let entries = byte_table_entries(&self.allocations);
        proof {
            lemma_pairs_sum(entries@, self.allocs());
        }
        let mut sum: u64 = 0;
        let mut i: usize = 0;
        while i < entries.len()
            invariant
                i <= entries@.len(),
                sum == pairs_sum(entries@.take(i as int)),
                pairs_sum(entries@) <= u64::MAX,
            decreases entries.len() - i,
        {
            proof {
                assert(entries@.take(i as int + 1).drop_last() =~= entries@.take(i as int));
                lemma_pairs_sum_prefix(entries@, i as int + 1);
            }
            sum = sum + entries[i].1;
            i = i + 1;
        }
        assert(entries@.take(i as int) =~= entries@);
        sum
    }

    /// The eviction order at `now`: every non-resident allocation exactly
    /// once, oldest first (models never touched count as used at `now`).
    pub fn lru_order_at(&self, now: u64) -> (r: Vec<(String, u64)>)
        ensures
            is_lru_order(
                listing_of(r@),
                self.allocs(),
                self.stamps(),
                self.flags(),
                now,
            ),
    {
        proof {
            use_type_invariant(self);
        }
        let entries = byte_table_entries(&self.allocations);
        let ghost ents = listing_of(entries@);
        let ghost stamps = self.stamps();
        let ghost flags = self.flags();
        let mut out: Vec<(String, u64)> = Vec::new();
        let mut keys: Vec<u64> = Vec::new();
        let ghost mut src: Seq<int> = Seq::empty();
        let ghost mut pos: Seq<int> = Seq::empty();
        let mut i: usize = 0;
        proof {
            assert(listing_of(out@) =~= Seq::<(Seq<char>, u64)>::empty());
        }
        while i < entries.len()
            invariant
                ents == listing_of(entries@),
                stamps == self.stamps(),
                flags == self.flags(),
                i <= entries@.len(),
                build_inv(ents, stamps, flags, now, i as int, listing_of(out@), keys@, src, pos),
            decreases entries.len() - i,
        {
            let bytes = entries[i].1;
            let flagged = match flag_table_get(&self.resident, entries[i].0.as_str()) {
                Some(v) => v,
                None => false,
            };
            proof {
                assert(ents[i as int] == (entries@[i as int].0@, bytes));
            }
            if flagged {
                proof {
                    lemma_build_skip(ents, stamps, flags, now, i as int, listing_of(out@), keys@, src, pos);
                    pos = pos.push(-1);
                }
            } else {
                let key = match byte_table_get(&self.last_used, entries[i].0.as_str()) {
                    Some(s) => s,
                    None => now,
                };
                // Stable insertion: after every element with a key not above this one.
                let mut p: usize = out.len();
                while p > 0 && keys[p - 1] > key
                    invariant
                        p <= out@.len(),
                        keys@.len() == out@.len(),
                        forall|a: int| p <= a < out@.len() ==> keys@[a] > key,
                    decreases p,
                {
                    p = p - 1;
                }
                let ghost before = out@;
                proof {
                    lemma_build_insert(
                        ents, stamps, flags, now, i as int, listing_of(out@), keys@, src, pos,
                        p as int, key,
                    );
                }
                out.insert(p, (entries[i].0.clone(), bytes));
                keys.insert(p, key);
                proof {
                    assert(listing_of(out@) =~= listing_of(before).insert(p as int, ents[i as int]));
                    src = src.insert(p as int, i as int);
                    pos = shift_from(pos, p as int).push(p as int);
                }
            }
            i = i + 1;
        }
        proof {
            lemma_listing_of_lists(entries@, self.allocs());
            lemma_build_done(ents, stamps, flags, now, listing_of(out@), keys@, src, pos, self.allocs());
        }
        out
    }
    /// The current clock reading (never before the last stamp issued).
    fn now(&self) -> (r: u64)
        ensures
            r >= self.clock(),
    {
        let observed = nanos_u64(elapsed_since(&self.origin));
        if observed > self.clock {
            observed
        } else {
            self.clock
        }
    }

    /// The eviction order now: every non-resident allocation exactly once,
    /// oldest first.
    pub fn lru_order(&self) -> (r: Vec<(String, u64)>)
        ensures
            exists|now: u64|
                now >= self.clock() && #[trigger] is_lru_order(
                    listing_of(r@),
                    self.allocs(),
                    self.stamps(),
                    self.flags(),
                    now,
                ),
    {
        let now = self.now();
        self.lru_order_at(now)
    }

    /// Total memory in bytes.
    pub fn total_memory(&self) -> (r: u64)
        ensures
            r == self.total(),
    {
        self.total
    }

    /// Memory in use in bytes.
    pub fn used_memory(&self) -> (r: u64)
        ensures
            r == self.used(),
    {
        self.sum_allocations()
    }

    /// Memory still free in bytes.
    pub fn available_memory(&self) -> (r: u64)
        ensures
            r == self.available(),
    {
        self.total.saturating_sub(self.sum_allocations())
    }

    /// Whether `required_bytes` fit in the free memory.
    pub fn can_fit(&self, required_bytes: u64) -> (r: bool)
        ensures
            r == (self.available() >= required_bytes),
    {
        self.available_memory() >= required_bytes
    }

    /// Reserve `bytes` for `model_id` if they fit in the free memory
    /// (re-reserving a model replaces its figure), recording it as used now.
    pub fn reserve(&mut self, model_id: &str, bytes: u64) -> (r: Result<(), EngineError>)
        ensures
            final(self).total() == old(self).total(),
            final(self).flags() == old(self).flags(),
            r is Ok <==> old(self).available() >= bytes,
            r matches Err(e) ==> e == (EngineError::InsufficientMemory {
                need: bytes,
                available: old(self).available() as u64,
            }) && final(self).allocs() == old(self).allocs() && final(self).stamps() == old(
                self,
            ).stamps(),
            r is Ok ==> final(self).allocs() == old(self).allocs().insert(model_id@, bytes)
                && final(self).stamps() == old(self).stamps().insert(model_id@, final(self).clock()),
    {
        proof {
            use_type_invariant(&*self);
        }
        let available = self.available_memory();
        if !(available >= bytes) {
            return Err(EngineError::InsufficientMemory { need: bytes, available });
        }
        proof {
            let m = self.allocs();
            if m.contains_key(model_id@) {
                lemma_map_sum_remove(m, model_id@);
                lemma_map_sum_remove(m.insert(model_id@, bytes), model_id@);
                assert(m.insert(model_id@, bytes).remove(model_id@) =~= m.remove(model_id@));
            } else {
                lemma_map_sum_remove(m.insert(model_id@, bytes), model_id@);
                assert(m.insert(model_id@, bytes).remove(model_id@) =~= m);
            }
        }
        let _ = byte_table_insert(&mut self.allocations, owned(model_id), bytes);
        self.touch(model_id);
        Ok(())
    }

    /// Release `model_id`'s reservation, recency and residency, returning the
    /// bytes it held (zero if none).
    pub fn release(&mut self, model_id: &str) -> (r: Result<u64, EngineError>)
        ensures
            final(self).total() == old(self).total(),
            final(self).clock() == old(self).clock(),
            r == Ok::<u64, EngineError>(
                match old(self).allocs().get(model_id@) {
                    Some(b) => b,
                    None => 0,
                },
            ),
            final(self).allocs() == old(self).allocs().remove(model_id@),
            final(self).stamps() == old(self).stamps().remove(model_id@),
            final(self).flags() == old(self).flags().remove(model_id@),
    {
        proof {
            use_type_invariant(&*self);
            let m = self.allocs();
            if m.contains_key(model_id@) {
                lemma_map_sum_remove(m, model_id@);
            } else {
                assert(m.remove(model_id@) =~= m);
            }
        }
        let freed = match byte_table_remove(&mut self.allocations, model_id) {
            Some(v) => v,
            None => 0,
        };
        let _ = byte_table_remove(&mut self.last_used, model_id);
        let _ = flag_table_remove(&mut self.resident, model_id);
        Ok(freed)
    }

    /// The models to evict, oldest first, so that `required_bytes` fit: the
    /// shortest prefix of the eviction order (at `now`) whose reservations,
    /// added to the free memory, cover the request; an error when even all of
    /// them do not.
    pub fn evict_for_at(&self, required_bytes: u64, now: u64) -> (r: Result<Vec<String>, EngineError>)
        ensures
            exists|list: Listing|
                #[trigger] is_lru_order(list, self.allocs(), self.stamps(), self.flags(), now) && ({
                    let (ids, freed) = plan_from(list, 0, self.available(), required_bytes as int, 0);
                    &&& r matches Ok(v) ==> v@.map_values(|s: String| s@) == ids && self.available()
                        + freed >= required_bytes
                    &&& r matches Err(e) ==> e == (EngineError::InsufficientMemory {
                        need: required_bytes,
                        available: (self.available() + freed) as u64,
                    }) && self.available() + freed < required_bytes
                    &&& r is Ok <==> self.available() + freed >= required_bytes
                }),
    {
        proof {
            use_type_invariant(self);
        }
        let available = self.available_memory();
        let order = self.lru_order_at(now);
        let ghost list = listing_of(order@);
        proof {
            lemma_listing_within(list, self.allocs());
        }
        let mut to_evict: Vec<String> = Vec::new();
        let mut freed: u64 = 0;
        let mut i: usize = 0;
        proof {
            assert(list.take(0) =~= Seq::<(Seq<char>, u64)>::empty());
            assert(to_evict@.map_values(|s: String| s@) =~= Seq::<Seq<char>>::empty());
        }
        while i < order.len() && available + freed < required_bytes
            invariant
                list == listing_of(order@),
                available == self.available(),
                i <= order@.len(),
                freed == listing_sum(list.take(i as int)),
                freed <= listing_sum(list),
                available + listing_sum(list) <= u64::MAX,
                plan_from(list, 0, available as int, required_bytes as int, 0) == (
                    to_evict@.map_values(|s: String| s@) + plan_from(
                        list,
                        i as int,
                        available as int,
                        required_bytes as int,
                        freed as int,
                    ).0,
                    plan_from(list, i as int, available as int, required_bytes as int, freed as int).1,
                ),
            decreases order.len() - i,
        {
            let ghost before = to_evict@;
            to_evict.push(order[i].0.clone());
            proof {
                assert(list.take(i as int + 1).drop_last() =~= list.take(i as int));
                assert(list[i as int] == (order@[i as int].0@, order@[i as int].1));
                assert(to_evict@.map_values(|s: String| s@) =~= before.map_values(|s: String| s@).push(
                    list[i as int].0,
                ));
                let rest = plan_from(
                    list,
                    i as int + 1,
                    available as int,
                    required_bytes as int,
                    freed + list[i as int].1,
                );
                assert(before.map_values(|s: String| s@) + (seq![list[i as int].0] + rest.0)
                    =~= to_evict@.map_values(|s: String| s@) + rest.0);
                lemma_listing_sum_prefix(list, i as int + 1);
            }
            freed = freed + order[i].1;
            i = i + 1;
        }
        proof {
            assert(plan_from(list, i as int, available as int, required_bytes as int, freed as int).0
                =~= Seq::<Seq<char>>::empty());
            assert(to_evict@.map_values(|s: String| s@) + Seq::<Seq<char>>::empty() =~= to_evict@.map_values(
                |s: String| s@,
            ));
        }
        if available + freed < required_bytes {
            return Err(EngineError::InsufficientMemory { need: required_bytes, available: available + freed });
        }
        Ok(to_evict)
    }

    /// The models to evict now so that `required_bytes` fit; see
    /// [`evict_for_at`](Self::evict_for_at).
    pub fn evict_for(&self, required_bytes: u64) -> (r: Result<Vec<String>, EngineError>)
        ensures
            exists|now: u64, list: Listing|
                now >= self.clock() && #[trigger] is_lru_order(
                    list,
                    self.allocs(),
                    self.stamps(),
                    self.flags(),
                    now,
                ) && ({
                    let (ids, freed) = plan_from(list, 0, self.available(), required_bytes as int, 0);
                    &&& r matches Ok(v) ==> v@.map_values(|s: String| s@) == ids
                    &&& r matches Err(e) ==> e == (EngineError::InsufficientMemory {
                        need: required_bytes,
                        available: (self.available() + freed) as u64,
                    })
                    &&& r is Ok <==> self.available() + freed >= required_bytes
                }),
    {
        let now = self.now();
        self.evict_for_at(required_bytes, now)
    }
}

impl MemoryManager for MemoryManagerImpl {
    fn total_memory(&self) -> (r: u64)
        ensures
            r == self.total(),
    {
        MemoryManagerImpl::total_memory(self)
    }

    fn used_memory(&self) -> (r: u64)
        ensures
            r == self.used(),
    {
        MemoryManagerImpl::used_memory(self)
    }

    fn available_memory(&self) -> (r: u64)
        ensures
            r == self.available(),
    {
        MemoryManagerImpl::available_memory(self)
    }

    fn can_fit(&self, required_bytes: u64) -> (r: bool)
        ensures
            r == (self.available() >= required_bytes),
    {
        MemoryManagerImpl::can_fit(self, required_bytes)
    }

    fn reserve(&mut self, model_id: &str, bytes: u64) -> (r: Result<(), EngineError>)
        ensures
            r is Ok <==> old(self).available() >= bytes,
            r is Ok ==> final(self).allocs() == old(self).allocs().insert(model_id@, bytes),
            r is Err ==> final(self).allocs() == old(self).allocs(),
    {
        MemoryManagerImpl::reserve(self, model_id, bytes)
    }

    fn release(&mut self, model_id: &str) -> (r: Result<u64, EngineError>)
        ensures
            final(self).allocs() == old(self).allocs().remove(model_id@),
            r == Ok::<u64, EngineError>(
                match old(self).allocs().get(model_id@) {
                    Some(b) => b,
                    None => 0,
                },
            ),
    {
        MemoryManagerImpl::release(self, model_id)
    }

    fn evict_for(&self, required_bytes: u64) -> (r: Result<Vec<String>, EngineError>)
        ensures
            exists|now: u64, list: Listing|
                now >= self.clock() && #[trigger] is_lru_order(
                    list,
                    self.allocs(),
                    self.stamps(),
                    self.flags(),
                    now,
                ) && ({
                    let (ids, freed) = plan_from(list, 0, self.available(), required_bytes as int, 0);
                    &&& r matches Ok(v) ==> v@.map_values(|s: String| s@) == ids
                    &&& r matches Err(e) ==> e == (EngineError::InsufficientMemory {
                        need: required_bytes,
                        available: (self.available() + freed) as u64,
                    })
                    &&& r is Ok <==> self.available() + freed >= required_bytes
                }),
    {
        MemoryManagerImpl::evict_for(self, required_bytes)
    }
}

proof fn lemma_pairs_sum_prefix(pairs: Seq<(String, u64)>, i: int)
    requires
        0 <= i <= pairs.len(),
    ensures
        0 <= pairs_sum(pairs.take(i)) <= pairs_sum(pairs),
    decreases pairs.len(),
{
    if pairs.len() > 0 {
        if i < pairs.len() {
            assert(pairs.drop_last().take(i) =~= pairs.take(i));
            lemma_pairs_sum_prefix(pairs.drop_last(), i);
        } else {
            assert(pairs.take(i) =~= pairs);
            lemma_pairs_sum_prefix(pairs.drop_last(), i - 1);
            assert(pairs.drop_last().take(i - 1) =~= pairs.drop_last());
        }
    } else {
        assert(pairs.take(i) =~= pairs);
    }
}

proof fn lemma_listing_sum_prefix(list: Listing, i: int)
    requires
        0 <= i <= list.len(),
    ensures
        0 <= listing_sum(list.take(i)) <= listing_sum(list),
    decreases list.len(),
{
    if list.len() > 0 {
        if i < list.len() {
            assert(list.drop_last().take(i) =~= list.take(i));
            lemma_listing_sum_prefix(list.drop_last(), i);
        } else {
            assert(list.take(i) =~= list);
            lemma_listing_sum_prefix(list.drop_last(), i - 1);
            assert(list.drop_last().take(i - 1) =~= list.drop_last());
        }
    } else {
        assert(list.take(i) =~= list);
    }
}

/// A duplicate-free listing of some of a map's entries sums to at most the
/// map's total.
proof fn lemma_listing_within(list: Listing, m: Map<Seq<char>, u64>)
    requires
        m.dom().finite(),
        forall|i: int, j: int| 0 <= i < j < list.len() ==> list[i].0 != list[j].0,
        forall|i: int| 0 <= i < list.len() ==> #[trigger] m.contains_key(list[i].0) && m[list[i].0] == list[i].1,
    ensures
        listing_sum(list) <= map_sum(m),
        listing_sum(list) >= 0,
    decreases list.len(),
{
    if list.len() > 0 {
        let k = list.last().0;
        let m2 = m.remove(k);
        assert(m.contains_key(list[list.len() - 1].0));
        assert forall|i: int| 0 <= i < list.drop_last().len() implies #[trigger] m2.contains_key(
            list.drop_last()[i].0,
        ) && m2[list.drop_last()[i].0] == list.drop_last()[i].1 by {
            assert(list[i].0 != list[list.len() - 1].0);
            assert(m.contains_key(list[i].0));
        }
        lemma_listing_within(list.drop_last(), m2);
        lemma_map_sum_remove(m, k);
        lemma_map_sum_nonneg(m2);
        assert(m[k] == list.last().1);
        assert(listing_sum(list) == listing_sum(list.drop_last()) + list.last().1);
    } else {
        lemma_map_sum_nonneg(m);
    }
}

proof fn lemma_map_sum_nonneg(m: Map<Seq<char>, u64>)
    requires
        m.dom().finite(),
    ensures
        map_sum(m) >= 0,
    decreases m.dom().len(),
{
    if m.dom().len() > 0 {
        let k = m.dom().choose();
        lemma_map_sum_nonneg(m.remove(k));
    }
}

/// Positions at or after `p` moved one place up, the others unchanged.
spec fn shift_from(pos: Seq<int>, p: int) -> Seq<int> {
    pos.map_values(|x: int| if x >= p { x + 1 } else { x })
}

/// What building the eviction order keeps after `i` entries of `ents`: `out`
/// holds exactly the non-resident ones among them (`src` gives where each came
/// from, `pos` where each went), with stamps `keys` in non-decreasing order.
spec fn build_inv(
    ents: Listing,
    stamps: Map<Seq<char>, u64>,
    flags: Map<Seq<char>, bool>,
    now: u64,
    i: int,
    out: Listing,
    keys: Seq<u64>,
    src: Seq<int>,
    pos: Seq<int>,
) -> bool {
    &&& 0 <= i <= ents.len()
    &&& keys.len() == out.len()
    &&& src.len() == out.len()
    &&& pos.len() == i
    &&& forall|k: int|
        #![trigger src[k]]
        0 <= k < out.len() ==> 0 <= src[k] < i && out[k] == ents[src[k]] && !is_resident(
            flags,
            out[k].0,
        ) && keys[k] == effective_stamp(stamps, out[k].0, now)
    &&& forall|e: int|
        #![trigger pos[e]]
        0 <= e < i ==> if is_resident(flags, ents[e].0) {
            pos[e] == -1
        } else {
            0 <= pos[e] < out.len() && src[pos[e]] == e
        }
    &&& forall|a: int, b: int| #![trigger keys[a], keys[b]] 0 <= a < b < out.len() ==> keys[a] <= keys[b]
    &&& forall|a: int, b: int| #![trigger src[a], src[b]] 0 <= a < b < out.len() ==> src[a] != src[b]
}

proof fn lemma_build_skip(
    ents: Listing,
    stamps: Map<Seq<char>, u64>,
    flags: Map<Seq<char>, bool>,
    now: u64,
    i: int,
    out: Listing,
    keys: Seq<u64>,
    src: Seq<int>,
    pos: Seq<int>,
)
    requires
        build_inv(ents, stamps, flags, now, i, out, keys, src, pos),
        i < ents.len(),
        is_resident(flags, ents[i].0),
    ensures
        build_inv(ents, stamps, flags, now, i + 1, out, keys, src, pos.push(-1)),
{
    let pos2 = pos.push(-1);
    assert forall|e: int| #![trigger pos2[e]] 0 <= e < i + 1 implies (if is_resident(flags, ents[e].0) {
        pos2[e] == -1
    } else {
        0 <= pos2[e] < out.len() && src[pos2[e]] == e
    }) by {
        if e < i {
            assert(pos2[e] == pos[e]);
        }
    }
}

proof fn lemma_build_insert(
    ents: Listing,
    stamps: Map<Seq<char>, u64>,
    flags: Map<Seq<char>, bool>,
    now: u64,
    i: int,
    out: Listing,
    keys: Seq<u64>,
    src: Seq<int>,
    pos: Seq<int>,
    p: int,
    key: u64,
)
    requires
        build_inv(ents, stamps, flags, now, i, out, keys, src, pos),
        i < ents.len(),
        !is_resident(flags, ents[i].0),
        key == effective_stamp(stamps, ents[i].0, now),
        0 <= p <= out.len(),
        forall|a: int| p <= a < out.len() ==> keys[a] > key,
        p > 0 ==> keys[p - 1] <= key,
    ensures
        build_inv(
            ents,
            stamps,
            flags,
            now,
            i + 1,
            out.insert(p, ents[i]),
            keys.insert(p, key),
            src.insert(p, i),
            shift_from(pos, p).push(p),
        ),
{
    let out2 = out.insert(p, ents[i]);
    let keys2 = keys.insert(p, key);
    let src2 = src.insert(p, i);
    let pos2 = shift_from(pos, p).push(p);
    assert forall|k: int| #![trigger src2[k]] 0 <= k < out2.len() implies 0 <= src2[k] < i + 1
        && out2[k] == ents[src2[k]] && !is_resident(flags, out2[k].0) && keys2[k]
        == effective_stamp(stamps, out2[k].0, now) by {
        if k < p {
            assert(src2[k] == src[k] && out2[k] == out[k] && keys2[k] == keys[k]);
        } else if k > p {
            assert(src2[k] == src[k - 1] && out2[k] == out[k - 1] && keys2[k] == keys[k - 1]);
        }
    }
    assert forall|e: int| #![trigger pos2[e]] 0 <= e < i + 1 implies (if is_resident(flags, ents[e].0) {
        pos2[e] == -1
    } else {
        0 <= pos2[e] < out2.len() && src2[pos2[e]] == e
    }) by {
        if e < i {
            assert(pos2[e] == shift_from(pos, p)[e]);
            assert(pos[e] == pos[e]);
            if !is_resident(flags, ents[e].0) {
                let q = pos[e];
                assert(src[q] == e);
                if q >= p {
                    assert(src2[q + 1] == src[q]);
                } else {
                    assert(src2[q] == src[q]);
                }
            }
        }
    }
    assert forall|a: int, b: int| 0 <= a < b < out2.len() implies keys2[a] <= keys2[b] by {
        if b < p {
            assert(keys2[a] == keys[a] && keys2[b] == keys[b]);
        } else if b == p {
            assert(keys2[a] == keys[a]);
            assert(keys[a] <= keys[p - 1]);
        } else if a > p {
            assert(keys2[a] == keys[a - 1] && keys2[b] == keys[b - 1]);
        } else if a == p {
            assert(keys2[b] == keys[b - 1]);
        } else {
            assert(keys2[a] == keys[a] && keys2[b] == keys[b - 1]);
            assert(keys[b - 1] > key);
            assert(keys[a] <= keys[p - 1]);
        }
    }
    assert forall|a: int, b: int| 0 <= a < b < out2.len() implies src2[a] != src2[b] by {
        if b < p {
            assert(src2[a] == src[a] && src2[b] == src[b]);
        } else if b == p {
            assert(src2[a] == src[a]);
        } else if a > p {
            assert(src2[a] == src[a - 1] && src2[b] == src[b - 1]);
        } else if a == p {
            assert(src2[b] == src[b - 1]);
        } else {
            assert(src2[a] == src[a] && src2[b] == src[b - 1]);
        }
    }
}

proof fn lemma_build_done(
    ents: Listing,
    stamps: Map<Seq<char>, u64>,
    flags: Map<Seq<char>, bool>,
    now: u64,
    out: Listing,
    keys: Seq<u64>,
    src: Seq<int>,
    pos: Seq<int>,
    allocs: Map<Seq<char>, u64>,
)
    requires
        build_inv(ents, stamps, flags, now, ents.len() as int, out, keys, src, pos),
        forall|a: int, b: int| 0 <= a < b < ents.len() ==> ents[a].0 != ents[b].0,
        forall|e: int|
            0 <= e < ents.len() ==> #[trigger] allocs.contains_key(ents[e].0) && allocs[ents[e].0]
                == ents[e].1,
        forall|k: Seq<char>|
            #[trigger] allocs.contains_key(k) ==> exists|e: int| 0 <= e < ents.len() && ents[e].0 == k,
    ensures
        is_lru_order(out, allocs, stamps, flags, now),
{
    assert forall|a: int, b: int| 0 <= a < b < out.len() implies out[a].0 != out[b].0 by {
        let sa = src[a];
        let sb = src[b];
        if sa < sb {
            assert(ents[sa].0 != ents[sb].0);
        } else {
            assert(ents[sb].0 != ents[sa].0);
        }
    }
    assert forall|k: int| 0 <= k < out.len() implies #[trigger] allocs.contains_key(out[k].0)
        && allocs[out[k].0] == out[k].1 && !is_resident(flags, out[k].0) by {
        let s = src[k];
        assert(allocs.contains_key(ents[s].0));
    }
    assert forall|k: Seq<char>| #[trigger] allocs.contains_key(k) && !is_resident(flags, k) implies exists|a: int|
        0 <= a < out.len() && out[a].0 == k by {
        let e = choose|e: int| 0 <= e < ents.len() && ents[e].0 == k;
        let q = pos[e];
        assert(src[q] == e);
        assert(out[q].0 == k);
    }
    assert forall|a: int, b: int| #![trigger out[a], out[b]] 0 <= a < b < out.len() implies effective_stamp(stamps, out[a].0, now)
        <= effective_stamp(stamps, out[b].0, now) by {
        assert(0 <= src[a] < ents.len() && 0 <= src[b] < ents.len());
        assert(keys[a] <= keys[b]);
    }
}
proof fn lemma_listing_of_lists(entries: Seq<(String, u64)>, allocs: Map<Seq<char>, u64>)
    requires
        lists_bytes(entries, allocs),
    ensures
        forall|a: int, b: int|
            0 <= a < b < listing_of(entries).len() ==> listing_of(entries)[a].0 != listing_of(
                entries,
            )[b].0,
        forall|e: int|
            0 <= e < listing_of(entries).len() ==> #[trigger] allocs.contains_key(
                listing_of(entries)[e].0,
            ) && allocs[listing_of(entries)[e].0] == listing_of(entries)[e].1,
        forall|k: Seq<char>|
            #[trigger] allocs.contains_key(k) ==> exists|e: int|
                0 <= e < listing_of(entries).len() && listing_of(entries)[e].0 == k,
{
    let l = listing_of(entries);
    assert forall|a: int, b: int| 0 <= a < b < l.len() implies l[a].0 != l[b].0 by {
        assert(entries[a].0@ != entries[b].0@);
    }
    assert forall|e: int| 0 <= e < l.len() implies #[trigger] allocs.contains_key(l[e].0)
        && allocs[l[e].0] == l[e].1 by {
        assert(allocs.contains_key(entries[e].0@));
    }
    assert forall|k: Seq<char>| #[trigger] allocs.contains_key(k) implies exists|e: int|
        0 <= e < l.len() && l[e].0 == k by {
        let e = choose|e: int| 0 <= e < entries.len() && entries[e].0@ == k;
        assert(l[e].0 == k);
    }
}

/// Reserving a model that held nothing and then releasing it leaves the
/// reservations as they were.
pub proof fn law_reserve_release_round_trip(allocs: Map<Seq<char>, u64>, id: Seq<char>, bytes: u64)
    requires
        !allocs.contains_key(id),
    ensures
        allocs.insert(id, bytes).remove(id) == allocs,
{
    assert(allocs.insert(id, bytes).remove(id) =~= allocs);
}

/// Releasing a model frees exactly its reservation: the bytes in use drop by
/// what it held.
pub proof fn law_release_frees_reservation(allocs: Map<Seq<char>, u64>, id: Seq<char>)
    requires
        allocs.dom().finite(),
        allocs.contains_key(id),
    ensures
        map_sum(allocs.remove(id)) == map_sum(allocs) - allocs[id],
{
    lemma_map_sum_remove(allocs, id);
}

} // verus!
