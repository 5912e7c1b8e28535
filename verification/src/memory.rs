//! Reservation-based memory manager with LRU eviction.
//!
//! Memory is admitted *before* a model is loaded: callers reserve capacity,
//! evict idle models if needed, and only then ask the backend to load. The
//! check and the update of a reservation happen in one call on the table, so
//! admitted reservations never jointly exceed the budget.
//!
//! Three quantities are tracked per model:
//! - **reserved** — the bytes admitted against the budget (a conservative
//!   estimate, later reconciled toward observed usage);
//! - **observed** — actual usage reported by the backend, when available;
//! - **leases** — in-flight inferences; a model with active leases is never
//!   an eviction candidate.
//!
//! Recency is a nanosecond stamp taken from a monotonic clock; the table keeps
//! its stamps strictly increasing, so the least recently used model is always
//! well defined.

use vstd::prelude::*;
use std::time::{Duration, Instant};

use crate::clock::{
    advance_stamp, clamp_nanos, duration_nanos, elapsed_since, instant_now, nanos_u64,
    next_stamp,
};
use crate::system::total_memory_bytes;
use crate::text::{chars_lt, str_eq, str_lt};

verus! {

/// Bytes in one megabyte.
pub const MB: u64 = 1048576;

/// The accounting of one model, as contracts speak of it.
pub struct AllocationView {
    /// Bytes admitted against the budget.
    pub reserved_bytes: u64,
    /// Bytes the backend reported, if any.
    pub observed_bytes: Option<u64>,
    /// Stamp of the last access.
    pub last_access: u64,
    /// Active inference leases.
    pub leases: u32,
}

/// One table row as contracts speak of it: model id and accounting.
pub type Row = (Seq<char>, AllocationView);

struct Allocation {
    /// Bytes admitted against the budget. Accounting always uses this figure.
    reserved_bytes: u64,
    /// Actual usage reported by the backend, when known.
    observed_bytes: Option<u64>,
    /// Monotonic stamp of the last access, for LRU and idle-timeout decisions.
    last_access: u64,
    /// Active inference leases. A model with `leases > 0` is never evicted.
    leases: u32,
}

struct AllocationEntry {
    model_id: String,
    alloc: Allocation,
}

impl Allocation {
    closed spec fn view(&self) -> AllocationView {
        AllocationView {
            reserved_bytes: self.reserved_bytes,
            observed_bytes: self.observed_bytes,
            last_access: self.last_access,
            leases: self.leases,
        }
    }

    fn new(reserved_bytes: u64, stamp: u64) -> (r: Self)
        ensures
            r.view() == (AllocationView {
                reserved_bytes,
                observed_bytes: None,
                last_access: stamp,
                leases: 0,
            }),
    {
        Allocation { reserved_bytes, observed_bytes: None, last_access: stamp, leases: 0 }
    }
}

impl AllocationEntry {
    closed spec fn view(&self) -> Row {
        (self.model_id@, self.alloc.view())
    }
}

/// A point-in-time view of one model's memory accounting.
pub struct AllocationSnapshot {
    /// Model identifier.
    pub model_id: String,
    /// Bytes reserved against the budget.
    pub reserved_bytes: u64,
    /// Bytes observed by the backend, if reported.
    pub observed_bytes: Option<u64>,
    /// Active inference leases.
    pub leases: u32,
}

/// The abstract state of a [`MemoryManager`].
pub struct MemoryView {
    /// Total budget in bytes.
    pub budget: u64,
    /// The rows of the table, one per model id.
    pub rows: Seq<Row>,
    /// The last stamp the table issued.
    pub clock: u64,
}

/// Sum of the reserved bytes of `rows`.
pub open spec fn total_reserved(rows: Seq<Row>) -> int
    decreases rows.len(),
{
    if rows.len() == 0 {
        0
    } else {
        total_reserved(rows.drop_last()) + rows.last().1.reserved_bytes
    }
}

/// Sum of the reserved bytes of every row except the one for `id`.
pub open spec fn reserved_by_others(rows: Seq<Row>, id: Seq<char>) -> int
    decreases rows.len(),
{
    if rows.len() == 0 {
        0
    } else {
        reserved_by_others(rows.drop_last(), id) + if rows.last().0 == id {
            0int
        } else {
            rows.last().1.reserved_bytes as int
        }
    }
}

/// Index of the row for `id`, or `-1` when there is none.
pub open spec fn position(rows: Seq<Row>, id: Seq<char>) -> int
    decreases rows.len(),
{
    if rows.len() == 0 {
        -1
    } else if rows.last().0 == id {
        rows.len() - 1
    } else {
        position(rows.drop_last(), id)
    }
}

/// No two rows share a model id.
pub open spec fn ids_unique(rows: Seq<Row>) -> bool {
    forall|i: int, j: int| 0 <= i < j < rows.len() ==> rows[i].0 != rows[j].0
}

/// The ids held by a slice of strings.
pub open spec fn id_list(list: Seq<String>) -> Seq<Seq<char>> {
    list.map_values(|s: String| s@)
}

/// A row may be evicted: it holds no lease and is not protected.
pub open spec fn evictable(row: Row, protected: Seq<Seq<char>>) -> bool {
    row.1.leases == 0 && !protected.contains(row.0)
}

/// A row is idle at time `now`: at least `idle` nanoseconds since its last access.
pub open spec fn idle_at(row: Row, now: u64, idle: u64) -> bool {
    now >= row.1.last_access && now - row.1.last_access >= idle
}

/// Ids of the evictable rows that are idle at `now`, in table order.
pub open spec fn idle_ids(rows: Seq<Row>, now: u64, idle: u64, protected: Seq<Seq<char>>) -> Seq<
    Seq<char>,
>
    decreases rows.len(),
{
    if rows.len() == 0 {
        Seq::empty()
    } else {
        let prefix = idle_ids(rows.drop_last(), now, idle, protected);
        let row = rows.last();
        if evictable(row, protected) && idle_at(row, now, idle) {
            prefix.push(row.0)
        } else {
            prefix
        }
    }
}

impl MemoryView {
    /// The accounting of `id`, if it holds a reservation.
    pub open spec fn allocation(self, id: Seq<char>) -> Option<AllocationView> {
        let p = position(self.rows, id);
        if p >= 0 {
            Some(self.rows[p].1)
        } else {
            None
        }
    }

    /// Bytes reserved across all models.
    pub open spec fn used(self) -> int {
        total_reserved(self.rows)
    }

    /// Bytes still available within the budget (zero when over-committed).
    pub open spec fn available(self) -> int {
        if self.used() >= self.budget {
            0
        } else {
            self.budget - self.used()
        }
    }

    /// Whether reserving `bytes` for `id` fits in the budget, counting the
    /// reservations of every other model (a re-reservation replaces, so the
    /// model's own current reservation does not count).
    pub open spec fn fits(self, id: Seq<char>, bytes: u64) -> bool {
        reserved_by_others(self.rows, id) + bytes <= self.budget
    }

    /// The rows after setting `id`'s reservation to `bytes` at stamp `stamp`:
    /// an existing row keeps its observed figure and its leases; a new row
    /// starts with none.
    pub open spec fn rows_after_reserve(self, id: Seq<char>, bytes: u64, stamp: u64) -> Seq<Row> {
        let p = position(self.rows, id);
        if p >= 0 {
            self.rows.update(
                p,
                (
                    id,
                    AllocationView {
                        reserved_bytes: bytes,
                        last_access: stamp,
                        ..self.rows[p].1
                    },
                ),
            )
        } else {
            self.rows.push(
                (
                    id,
                    AllocationView {
                        reserved_bytes: bytes,
                        observed_bytes: None,
                        last_access: stamp,
                        leases: 0,
                    },
                ),
            )
        }
    }

    /// The rows after applying `f` to `id`'s accounting (unchanged when absent).
    pub open spec fn rows_with(self, id: Seq<char>, a: AllocationView) -> Seq<Row> {
        let p = position(self.rows, id);
        if p >= 0 {
            self.rows.update(p, (id, a))
        } else {
            self.rows
        }
    }

    /// Whether `id` is evictable and has the smallest stamp among evictable rows.
    pub open spec fn is_lru(self, id: Seq<char>, protected: Seq<Seq<char>>) -> bool {
        exists|i: int|
            0 <= i < self.rows.len() && #[trigger] self.rows[i].0 == id && evictable(
                self.rows[i],
                protected,
            ) && forall|j: int|
                0 <= j < self.rows.len() && evictable(#[trigger] self.rows[j], protected)
                    ==> self.rows[i].1.last_access <= self.rows[j].1.last_access
    }

    /// Whether some row is evictable.
    pub open spec fn has_evictable(self, protected: Seq<Seq<char>>) -> bool {
        exists|i: int| 0 <= i < self.rows.len() && evictable(#[trigger] self.rows[i], protected)
    }
}

/// Tracks per-model memory reservations and enforces a global budget.
pub struct MemoryManager {
    /// Total budget in bytes.
    budget_bytes: u64,
    /// Per-model allocations, one entry per model id.
    entries: Vec<AllocationEntry>,
    /// Reference point of the recency stamps.
    origin: Instant,
    /// The last stamp issued.
    clock: u64,
}

impl View for MemoryManager {
    type V = MemoryView;

    closed spec fn view(&self) -> MemoryView {
        MemoryView {
            budget: self.budget_bytes,
            rows: self.entries@.map_values(|e: AllocationEntry| e.view()),
            clock: self.clock,
        }
    }
}

// ----- lemmas on the table arithmetic -------------------------------------------

proof fn lemma_position_bounds(rows: Seq<Row>, id: Seq<char>)
    ensures
        -1 <= position(rows, id) < rows.len(),
        position(rows, id) >= 0 ==> rows[position(rows, id)].0 == id,
        position(rows, id) < 0 ==> forall|i: int| 0 <= i < rows.len() ==> rows[i].0 != id,
    decreases rows.len(),
{
    if rows.len() > 0 {
        lemma_position_bounds(rows.drop_last(), id);
        assert forall|i: int| 0 <= i < rows.len() - 1 implies rows[i] == rows.drop_last()[i] by {}
    }
}

proof fn lemma_position_unique(rows: Seq<Row>, id: Seq<char>, i: int)
    requires
        ids_unique(rows),
        0 <= i < rows.len(),
        rows[i].0 == id,
    ensures
        position(rows, id) == i,
    decreases rows.len(),
{
    if i < rows.len() - 1 {
        lemma_position_unique(rows.drop_last(), id, i);
    }
}

proof fn lemma_total_nonneg_bounds(rows: Seq<Row>, id: Seq<char>)
    ensures
        total_reserved(rows) >= 0,
        0 <= reserved_by_others(rows, id) <= total_reserved(rows),
    decreases rows.len(),
{
    if rows.len() > 0 {
        lemma_total_nonneg_bounds(rows.drop_last(), id);
    }
}

proof fn lemma_others_absent(rows: Seq<Row>, id: Seq<char>)
    requires
        position(rows, id) < 0,
    ensures
        reserved_by_others(rows, id) == total_reserved(rows),
    decreases rows.len(),
{
    if rows.len() > 0 {
        lemma_others_absent(rows.drop_last(), id);
    }
}

proof fn lemma_others_present(rows: Seq<Row>, id: Seq<char>)
    requires
        ids_unique(rows),
        position(rows, id) >= 0,
    ensures
        reserved_by_others(rows, id) + rows[position(rows, id)].1.reserved_bytes == total_reserved(
            rows,
        ),
    decreases rows.len(),
{
    let p = position(rows, id);
    let init = rows.drop_last();
    if rows.last().0 == id {
        lemma_position_bounds(init, id);
        if position(init, id) >= 0 {
            let q = position(init, id);
            assert(rows[q].0 == id);
            assert(false);
        }
        lemma_others_absent(init, id);
    } else {
        assert(ids_unique(init)) by {
            assert forall|i: int, j: int| 0 <= i < j < init.len() implies init[i].0 != init[j].0 by {
                assert(init[i] == rows[i] && init[j] == rows[j]);
            }
        }
        lemma_others_present(init, id);
        lemma_position_bounds(init, id);
        assert(position(rows, id) == position(init, id));
        assert(rows[p] == init[p]);
    }
}

proof fn lemma_total_update(rows: Seq<Row>, p: int, row: Row)
    requires
        0 <= p < rows.len(),
    ensures
        total_reserved(rows.update(p, row)) == total_reserved(rows) - rows[p].1.reserved_bytes
            + row.1.reserved_bytes,
    decreases rows.len(),
{
    let u = rows.update(p, row);
    if p == rows.len() - 1 {
        assert(u.drop_last() =~= rows.drop_last());
    } else {
        assert(u.drop_last() =~= rows.drop_last().update(p, row));
        lemma_total_update(rows.drop_last(), p, row);
    }
}

proof fn lemma_total_push(rows: Seq<Row>, row: Row)
    ensures
        total_reserved(rows.push(row)) == total_reserved(rows) + row.1.reserved_bytes,
{
    assert(rows.push(row).drop_last() =~= rows);
}

proof fn lemma_total_remove(rows: Seq<Row>, p: int)
    requires
        0 <= p < rows.len(),
    ensures
        total_reserved(rows.remove(p)) == total_reserved(rows) - rows[p].1.reserved_bytes,
    decreases rows.len(),
{
    let r = rows.remove(p);
    if p == rows.len() - 1 {
        assert(r =~= rows.drop_last());
    } else {
        assert(r.drop_last() =~= rows.drop_last().remove(p));
        lemma_total_remove(rows.drop_last(), p);
    }
}

proof fn lemma_total_prefix(rows: Seq<Row>, i: int)
    requires
        0 <= i <= rows.len(),
    ensures
        0 <= total_reserved(rows.take(i)) <= total_reserved(rows),
    decreases rows.len(),
{
    lemma_total_nonneg_bounds(rows.take(i), Seq::empty());
    if i < rows.len() {
        assert(rows.drop_last().take(i) =~= rows.take(i));
        lemma_total_prefix(rows.drop_last(), i);
        lemma_total_nonneg_bounds(rows.drop_last(), Seq::empty());
    } else {
        assert(rows.take(i) =~= rows);
    }
}

proof fn lemma_others_prefix(rows: Seq<Row>, id: Seq<char>, i: int)
    requires
        0 <= i < rows.len(),
    ensures
        reserved_by_others(rows.take(i + 1), id) == reserved_by_others(rows.take(i), id) + if rows[i].0
            == id {
            0int
        } else {
            rows[i].1.reserved_bytes as int
        },
        total_reserved(rows.take(i + 1)) == total_reserved(rows.take(i)) + rows[i].1.reserved_bytes,
{
    assert(rows.take(i + 1).drop_last() =~= rows.take(i));
}

proof fn lemma_idle_ids_prefix(rows: Seq<Row>, now: u64, idle: u64, protected: Seq<Seq<char>>, i: int)
    requires
        0 <= i < rows.len(),
    ensures
        idle_ids(rows.take(i + 1), now, idle, protected) == if evictable(rows[i], protected)
            && idle_at(rows[i], now, idle) {
            idle_ids(rows.take(i), now, idle, protected).push(rows[i].0)
        } else {
            idle_ids(rows.take(i), now, idle, protected)
        },
{
    assert(rows.take(i + 1).drop_last() =~= rows.take(i));
}

/// Replacing the accounting of `id` in a table with one row per id: `id`
/// then holds `a` (when it held anything), and every other id keeps its own.
proof fn lemma_rows_with(v: MemoryView, id: Seq<char>, a: AllocationView, w: MemoryView, o: Seq<char>)
    requires
        ids_unique(v.rows),
        w.rows == v.rows_with(id, a),
    ensures
        v.allocation(id) is Some ==> w.allocation(id) == Some(a),
        v.allocation(id) is None ==> w.allocation(id) is None,
        o != id ==> w.allocation(o) == v.allocation(o),
{
    lemma_position_bounds(v.rows, id);
    lemma_position_bounds(v.rows, o);
    lemma_position_bounds(w.rows, o);
    lemma_position_bounds(w.rows, id);
    let p = position(v.rows, id);
    if p >= 0 {
        assert forall|i: int, j: int| 0 <= i < j < w.rows.len() implies w.rows[i].0 != w.rows[j].0 by {
            assert(v.rows[i].0 != v.rows[j].0);
        }
        lemma_position_unique(w.rows, id, p);
        if o != id {
            let q = position(v.rows, o);
            if q >= 0 {
                assert(w.rows[q] == v.rows[q]);
                lemma_position_unique(w.rows, o, q);
            } else {
                if position(w.rows, o) >= 0 {
                    let k = position(w.rows, o);
                    assert(w.rows[k].0 == o);
                    if k != p {
                        assert(w.rows[k] == v.rows[k]);
                    }
                }
            }
        }
    }
}

impl MemoryManager {
    /// The table's invariant: one row per id, the total fits in `u64`, and
    /// every stamp is at most the clock.
    pub closed spec fn wf(&self) -> bool {
        &&& ids_unique(self@.rows)
        &&& self@.used() <= u64::MAX
        &&& forall|i: int| 0 <= i < self@.rows.len() ==> #[trigger] self@.rows[i].1.last_access <= self@.clock
    }

    proof fn lemma_view_rows(&self)
        ensures
            self@.rows.len() == self.entries@.len(),
            forall|i: int|
                0 <= i < self.entries@.len() ==> #[trigger] self@.rows[i] == self.entries@[i].view(),
    {
    }

    /// Create a new memory manager with a budget of `budget_mb` megabytes
    /// (saturating at `u64::MAX` bytes).
    ///
    /// If `budget_mb` is `None`, the budget is 70% of the system's total RAM.
    pub fn new(budget_mb: Option<u64>) -> (r: Self)
        ensures
            r.wf(),
            r@.rows.len() == 0,
            r@.clock == 0,
            budget_mb matches Some(mb) ==> r@.budget == mul_saturating(mb, MB),
            budget_mb is None ==> exists|total: u64| r@.budget == #[trigger] seventy_percent_of(total),
    {
        let budget_bytes = match budget_mb {
            Some(mb) => match mb.checked_mul(MB) {
                Some(b) => b,
                None => u64::MAX,
            },
            None => Self::detect_system_memory(),
        };
        let origin = instant_now();
        let r = MemoryManager { budget_bytes, entries: Vec::new(), origin, clock: 0 };
        proof {
            r.lemma_view_rows();
        }
        r
    }

    /// 70% of the machine's total memory, rounded down.
    fn detect_system_memory() -> (r: u64)
        ensures
            exists|total: u64| r == #[trigger] seventy_percent_of(total),
    {
        match total_memory_bytes() {
            Some(total) => {
                let r = seventy_percent(total);
                assert(r == seventy_percent_of(total));
                r
            },
            None => {
                assert(0 == seventy_percent_of(0));
                0
            },
        }
    }

    /// Total budget in bytes.
    pub fn budget_bytes(&self) -> (r: u64)
        ensures
            r == self@.budget,
    {
        self.budget_bytes
    }

    /// Currently reserved bytes across all models.
    pub fn used_bytes(&self) -> (r: u64)
        requires
            self.wf(),
        ensures
            r == self@.used(),
    {
        let mut sum: u64 = 0;
        let mut i: usize = 0;
        proof {
            self.lemma_view_rows();
        }
        while i < self.entries.len()
            invariant
                self.wf(),
                i <= self.entries@.len(),
                self@.rows.len() == self.entries@.len(),
                forall|k: int|
                    0 <= k < self.entries@.len() ==> #[trigger] self@.rows[k] == self.entries@[k].view(),
                sum == total_reserved(self@.rows.take(i as int)),
            decreases self.entries.len() - i,
        {
            proof {
                lemma_others_prefix(self@.rows, Seq::empty(), i as int);
                lemma_total_prefix(self@.rows, i as int + 1);
            }
            sum = sum + self.entries[i].alloc.reserved_bytes;
            i = i + 1;
        }
        assert(self@.rows.take(i as int) =~= self@.rows);
        sum
    }

    /// Bytes still available within the budget.
    pub fn available_bytes(&self) -> (r: u64)
        requires
            self.wf(),
        ensures
            r == self@.available(),
    {
        self.budget_bytes.saturating_sub(self.used_bytes())
    }

    /// Whether `needed_bytes` currently fits within the budget without eviction.
    pub fn can_fit(&self, needed_bytes: u64) -> (r: bool)
        requires
            self.wf(),
        ensures
            r == (self@.available() >= needed_bytes),
    {
        self.available_bytes() >= needed_bytes
    }

    /// Index of the entry for `model_id`, if any.
    fn find(&self, model_id: &str) -> (r: Option<usize>)
        requires
            self.wf(),
        ensures
            r matches Some(p) ==> p == position(self@.rows, model_id@) && p < self.entries@.len(),
            r is None ==> position(self@.rows, model_id@) < 0,
    {
        proof {
            self.lemma_view_rows();
            lemma_position_bounds(self@.rows, model_id@);
        }
        let mut i: usize = 0;
        while i < self.entries.len()
            invariant
                self.wf(),
                i <= self.entries@.len(),
                self@.rows.len() == self.entries@.len(),
                forall|k: int|
                    0 <= k < self.entries@.len() ==> #[trigger] self@.rows[k] == self.entries@[k].view(),
                forall|k: int| 0 <= k < i ==> self@.rows[k].0 != model_id@,
            decreases self.entries.len() - i,
        {
            if str_eq(self.entries[i].model_id.as_str(), model_id) {
                proof {
                    lemma_position_unique(self@.rows, model_id@, i as int);
                }
                return Some(i);
            }
            i = i + 1;
        }
        proof {
            if position(self@.rows, model_id@) >= 0 {
                let p = position(self@.rows, model_id@);
                assert(self@.rows[p].0 == model_id@);
            }
        }
        None
    }

    /// Sum of the reservations of every model other than `model_id`.
    fn used_by_others(&self, model_id: &str) -> (r: u64)
        requires
            self.wf(),
        ensures
            r == reserved_by_others(self@.rows, model_id@),
    {
        let mut sum: u64 = 0;
        let mut i: usize = 0;
        proof {
            self.lemma_view_rows();
        }
        while i < self.entries.len()
            invariant
                self.wf(),
                i <= self.entries@.len(),
                self@.rows.len() == self.entries@.len(),
                forall|k: int|
                    0 <= k < self.entries@.len() ==> #[trigger] self@.rows[k] == self.entries@[k].view(),
                sum == reserved_by_others(self@.rows.take(i as int), model_id@),
            decreases self.entries.len() - i,
        {
            proof {
                lemma_others_prefix(self@.rows, model_id@, i as int);
                lemma_total_prefix(self@.rows, i as int + 1);
                lemma_total_nonneg_bounds(self@.rows.take(i as int + 1), model_id@);
            }
            if !str_eq(self.entries[i].model_id.as_str(), model_id) {
                sum = sum + self.entries[i].alloc.reserved_bytes;
            }
            i = i + 1;
        }
        assert(self@.rows.take(i as int) =~= self@.rows);
        sum
    }

    /// Issue the next recency stamp.
    fn stamp(&mut self) -> (r: u64)
        requires
            old(self).wf(),
        ensures
            final(self).wf(),
            r == final(self)@.clock,
            final(self)@.rows == old(self)@.rows,
            final(self)@.budget == old(self)@.budget,
            exists|observed: u64| r == next_stamp(old(self)@.clock, observed),
    {
        let observed = nanos_u64(elapsed_since(&self.origin));
        let s = advance_stamp(self.clock, observed);
        self.clock = s;
        assert(s == next_stamp(old(self)@.clock, observed));
        s
    }

    /// Set the reservation of `model_id` to `bytes` (existing rows keep their
    /// leases and observed figure), stamping it as just accessed.
    fn put(&mut self, model_id: &str, bytes: u64)
        requires
            old(self).wf(),
            reserved_by_others(old(self)@.rows, model_id@) + bytes <= u64::MAX,
        ensures
            final(self).wf(),
            final(self)@.budget == old(self)@.budget,
            final(self)@.clock >= old(self)@.clock,
            old(self)@.clock < u64::MAX ==> final(self)@.clock > old(self)@.clock,
            final(self)@.rows == old(self)@.rows_after_reserve(model_id@, bytes, final(self)@.clock),
            final(self)@.used() == reserved_by_others(old(self)@.rows, model_id@) + bytes,
    {
        let ghost pre = self@;
        let found = self.find(model_id);
        let s = self.stamp();
        proof {
            self.lemma_view_rows();
            lemma_position_bounds(pre.rows, model_id@);
        }
        match found {
            Some(p) => {
                let old_leases = self.entries[p].alloc.leases;
                let old_observed = self.entries[p].alloc.observed_bytes;
                let entry = AllocationEntry {
                    model_id: self.entries[p].model_id.clone(),
                    alloc: Allocation {
                        reserved_bytes: bytes,
                        observed_bytes: old_observed,
                        last_access: s,
                        leases: old_leases,
                    },
                };
                self.entries.set(p, entry);
                proof {
                    self.lemma_view_rows();
                    let post = self@;
                    assert(post.rows =~= pre.rows_after_reserve(model_id@, bytes, s));
                    lemma_others_present(pre.rows, model_id@);
                    lemma_total_update(pre.rows, p as int, post.rows[p as int]);
                    assert forall|i: int, j: int| 0 <= i < j < post.rows.len() implies post.rows[i].0
                        != post.rows[j].0 by {
                        assert(pre.rows[i].0 != pre.rows[j].0);
                    }
                }
            },
            None => {
                let entry = AllocationEntry {
                    model_id: model_id.to_owned(),
                    alloc: Allocation::new(bytes, s),
                };
                self.entries.push(entry);
                proof {
                    self.lemma_view_rows();
                    let post = self@;
                    assert(post.rows =~= pre.rows_after_reserve(model_id@, bytes, s));
                    lemma_others_absent(pre.rows, model_id@);
                    lemma_total_push(pre.rows, post.rows.last());
                    assert forall|i: int, j: int| 0 <= i < j < post.rows.len() implies post.rows[i].0
                        != post.rows[j].0 by {
                        if j < pre.rows.len() {
                            assert(pre.rows[i].0 != pre.rows[j].0);
                        }
                    }
                }
            },
        }
    }

    /// Atomically reserve `bytes` for `model_id` if it fits within the budget.
    ///
    /// Re-reserving a model that already holds an allocation accounts only for
    /// the *delta*, and preserves its lease count. Returns `true` if the
    /// reservation succeeded.
    pub fn try_reserve(&mut self, model_id: &str, bytes: u64) -> (r: bool)
        requires
            old(self).wf(),
        ensures
            op_allows(old(self)@, MemoryOp::TryReserve(model_id@, bytes), final(self)@),
            final(self).wf(),
            r == old(self)@.fits(model_id@, bytes),
            final(self)@.budget == old(self)@.budget,
            r ==> final(self)@.rows == old(self)@.rows_after_reserve(
                model_id@,
                bytes,
                final(self)@.clock,
            ),
            r ==> final(self)@.used() == reserved_by_others(old(self)@.rows, model_id@) + bytes,
            r && old(self)@.clock < u64::MAX ==> final(self)@.clock > old(self)@.clock,
            !r ==> final(self)@ == old(self)@,
    {
        let others = self.used_by_others(model_id);
        match others.checked_add(bytes) {
            Some(total) => {
                if total > self.budget_bytes {
                    return false;
                }
            },
            None => {
                return false;
            },
        }
        self.put(model_id, bytes);
        true
    }

    /// Unconditionally record a reservation, ignoring the budget.
    ///
    /// Intended for accounting state the backend reports as already resident.
    /// Prefer [`try_reserve`](Self::try_reserve) for admission.
    pub fn allocate(&mut self, model_id: &str, bytes: u64)
        requires
            old(self).wf(),
            reserved_by_others(old(self)@.rows, model_id@) + bytes <= u64::MAX,
        ensures
            op_allows(old(self)@, MemoryOp::Allocate(model_id@, bytes), final(self)@),
            final(self).wf(),
            final(self)@.budget == old(self)@.budget,
            final(self)@.rows == old(self)@.rows_after_reserve(model_id@, bytes, final(self)@.clock),
            final(self)@.used() == reserved_by_others(old(self)@.rows, model_id@) + bytes,
            old(self)@.clock < u64::MAX ==> final(self)@.clock > old(self)@.clock,
    {
        self.put(model_id, bytes);
    }

    /// Release a model's reservation entirely.
    pub fn deallocate(&mut self, model_id: &str)
        requires
            old(self).wf(),
        ensures
            op_allows(old(self)@, MemoryOp::Deallocate(model_id@), final(self)@),
            final(self).wf(),
            final(self)@.budget == old(self)@.budget,
            final(self)@.clock == old(self)@.clock,
            final(self)@.allocation(model_id@) is None,
            position(old(self)@.rows, model_id@) >= 0 ==> final(self)@.rows == old(self)@.rows.remove(
                position(old(self)@.rows, model_id@),
            ),
            position(old(self)@.rows, model_id@) < 0 ==> final(self)@.rows == old(self)@.rows,
            final(self)@.used() == reserved_by_others(old(self)@.rows, model_id@),
    {
        let ghost pre = self@;
        proof {
            lemma_position_bounds(pre.rows, model_id@);
            lemma_total_nonneg_bounds(pre.rows, model_id@);
        }
        match self.find(model_id) {
            Some(p) => {
                self.entries.remove(p);
                proof {
                    self.lemma_view_rows();
                    let post = self@;
                    assert(post.rows =~= pre.rows.remove(p as int));
                    lemma_total_remove(pre.rows, p as int);
                    lemma_others_present(pre.rows, model_id@);
                    assert forall|i: int, j: int| 0 <= i < j < post.rows.len() implies post.rows[i].0
                        != post.rows[j].0 by {
                        if i < p {
                            if j < p {
                                assert(pre.rows[i].0 != pre.rows[j].0);
                            } else {
                                assert(pre.rows[i].0 != pre.rows[j + 1].0);
                            }
                        } else {
                            assert(pre.rows[i + 1].0 != pre.rows[j + 1].0);
                        }
                    }
                    assert forall|i: int| 0 <= i < post.rows.len() implies #[trigger] post.rows[i].1.last_access
                        <= post.clock by {
                        if i >= p {
                            assert(pre.rows[i + 1].1.last_access <= pre.clock);
                        }
                    }
                    lemma_position_bounds(post.rows, model_id@);
                    if position(post.rows, model_id@) >= 0 {
                        let q = position(post.rows, model_id@);
                        if q < p {
                            assert(pre.rows[q].0 == model_id@);
                        } else {
                            assert(pre.rows[q + 1].0 == model_id@);
                        }
                    }
                }
            },
            None => {
                proof {
                    lemma_others_absent(pre.rows, model_id@);
                }
            },
        }
    }

    /// Rewrite the accounting of the entry at `p`.
    fn rewrite(&mut self, p: usize, reserved: u64, observed: Option<u64>, stamp: u64, leases: u32)
        requires
            old(self).wf(),
            p < old(self)@.rows.len(),
            stamp <= old(self)@.clock,
            reserved_by_others(old(self)@.rows, old(self)@.rows[p as int].0) + reserved <= u64::MAX,
        ensures
            final(self).wf(),
            final(self)@.budget == old(self)@.budget,
            final(self)@.clock == old(self)@.clock,
            final(self)@.rows == old(self)@.rows.update(
                p as int,
                (
                    old(self)@.rows[p as int].0,
                    AllocationView {
                        reserved_bytes: reserved,
                        observed_bytes: observed,
                        last_access: stamp,
                        leases,
                    },
                ),
            ),
    {
        let ghost pre = self@;
        proof {
            self.lemma_view_rows();
        }
        let entry = AllocationEntry {
            model_id: self.entries[p].model_id.clone(),
            alloc: Allocation { reserved_bytes: reserved, observed_bytes: observed, last_access: stamp, leases },
        };
        self.entries.set(p, entry);
        proof {
            self.lemma_view_rows();
            let post = self@;
            let id = pre.rows[p as int].0;
            assert(post.rows =~= pre.rows.update(p as int, post.rows[p as int]));
            lemma_position_unique(pre.rows, id, p as int);
            lemma_others_present(pre.rows, id);
            lemma_total_update(pre.rows, p as int, post.rows[p as int]);
            assert forall|i: int, j: int| 0 <= i < j < post.rows.len() implies post.rows[i].0
                != post.rows[j].0 by {
                assert(pre.rows[i].0 != pre.rows[j].0);
            }
        }
    }

    /// Reconcile a reservation with memory the backend actually reports.
    ///
    /// The observed value is recorded for reporting, and the reservation is
    /// raised to it when the model uses more than estimated, so accounting never
    /// undercounts real usage. No-op for a model without a reservation.
    pub fn reconcile(&mut self, model_id: &str, observed_bytes: u64)
        requires
            old(self).wf(),
            reserved_by_others(old(self)@.rows, model_id@) + observed_bytes <= u64::MAX,
        ensures
            op_allows(old(self)@, MemoryOp::Reconcile(model_id@, observed_bytes), final(self)@),
            final(self).wf(),
            final(self)@.budget == old(self)@.budget,
            final(self)@.clock == old(self)@.clock,
            final(self)@.rows == (match old(self)@.allocation(model_id@) {
                Some(a) => old(self)@.rows_with(
                    model_id@,
                    AllocationView {
                        reserved_bytes: if a.reserved_bytes >= observed_bytes {
                            a.reserved_bytes
                        } else {
                            observed_bytes
                        },
                        observed_bytes: Some(observed_bytes),
                        ..a
                    },
                ),
                None => old(self)@.rows,
            }),
    {
        proof {
            lemma_position_bounds(self@.rows, model_id@);
        }
        if let Some(p) = self.find(model_id) {
            proof {
                self.lemma_view_rows();
                lemma_others_present(self@.rows, model_id@);
                assert(self@.rows[p as int].1.last_access <= self@.clock);
            }
            let a = &self.entries[p].alloc;
            let reserved = if a.reserved_bytes >= observed_bytes {
                a.reserved_bytes
            } else {
                observed_bytes
            };
            let stamp = a.last_access;
            let leases = a.leases;
            self.rewrite(p, reserved, Some(observed_bytes), stamp, leases);
        }
    }

    /// Update a model's last-access time (for LRU and idle-timeout decisions).
    pub fn touch(&mut self, model_id: &str)
        requires
            old(self).wf(),
        ensures
            op_allows(old(self)@, MemoryOp::Touch(model_id@), final(self)@),
            final(self).wf(),
            final(self)@.budget == old(self)@.budget,
            final(self)@.clock >= old(self)@.clock,
            old(self)@.clock < u64::MAX ==> final(self)@.clock > old(self)@.clock,
            final(self)@.rows == (match old(self)@.allocation(model_id@) {
                Some(a) => old(self)@.rows_with(
                    model_id@,
                    AllocationView { last_access: final(self)@.clock, ..a },
                ),
                None => old(self)@.rows,
            }),
            final(self)@.allocation(model_id@) == (match old(self)@.allocation(model_id@) {
                Some(a) => Some(
                    AllocationView {
                        last_access: final(self)@.clock,
                        ..a
                    },
                ),
                None => None,
            }),
            forall|o: Seq<char>|
                o != model_id@ ==> #[trigger] final(self)@.allocation(o) == old(self)@.allocation(o),
    {
        self.adjust_leases(model_id, 0);
        proof {
            let ghost a = match old(self)@.allocation(model_id@) {
                Some(a) => AllocationView {
                    last_access: self@.clock,
                    ..a
                },
                None => old(self)@.allocation(model_id@).unwrap(),
            };
            lemma_rows_with(old(self)@, model_id@, a, self@, model_id@);
            assert forall|o: Seq<char>| o != model_id@ implies #[trigger] self@.allocation(o) == old(self)@.allocation(o) by {
                lemma_rows_with(old(self)@, model_id@, a, self@, o);
            }
        }
    }

    /// Stamp `model_id` as accessed and change its leases by `delta`
    /// (`1` acquires, `-1` releases, saturating; `0` keeps them).
    fn adjust_leases(&mut self, model_id: &str, delta: i8)
        requires
            old(self).wf(),
            -1 <= delta <= 1,
        ensures
            final(self).wf(),
            final(self)@.budget == old(self)@.budget,
            final(self)@.clock >= old(self)@.clock,
            old(self)@.clock < u64::MAX ==> final(self)@.clock > old(self)@.clock,
            final(self)@.rows == (match old(self)@.allocation(model_id@) {
                Some(a) => old(self)@.rows_with(
                    model_id@,
                    AllocationView {
                        last_access: final(self)@.clock,
                        leases: leases_after(a.leases, delta as int),
                        ..a
                    },
                ),
                None => old(self)@.rows,
            }),
    {
        proof {
            lemma_position_bounds(self@.rows, model_id@);
        }
        let found = self.find(model_id);
        let s = self.stamp();
        if let Some(p) = found {
            proof {
                self.lemma_view_rows();
                lemma_others_present(self@.rows, model_id@);
            }
            let a = &self.entries[p].alloc;
            let leases = if delta > 0 {
                a.leases.saturating_add(1)
            } else if delta < 0 {
                a.leases.saturating_sub(1)
            } else {
                a.leases
            };
            let reserved = a.reserved_bytes;
            let observed = a.observed_bytes;
            self.rewrite(p, reserved, observed, s, leases);
        }
    }

    /// Acquire an inference lease, protecting the model from eviction.
    ///
    /// No-op for models without an allocation (e.g. cloud-backed models, which
    /// hold no local memory and are never eviction candidates).
    pub fn lease(&mut self, model_id: &str)
        requires
            old(self).wf(),
        ensures
            op_allows(old(self)@, MemoryOp::Lease(model_id@), final(self)@),
            final(self).wf(),
            final(self)@.budget == old(self)@.budget,
            final(self)@.clock >= old(self)@.clock,
            old(self)@.clock < u64::MAX ==> final(self)@.clock > old(self)@.clock,
            final(self)@.rows == (match old(self)@.allocation(model_id@) {
                Some(a) => old(self)@.rows_with(
                    model_id@,
                    AllocationView {
                        last_access: final(self)@.clock,
                        leases: leases_after(a.leases, 1),
                        ..a
                    },
                ),
                None => old(self)@.rows,
            }),
            final(self)@.allocation(model_id@) == (match old(self)@.allocation(model_id@) {
                Some(a) => Some(
                    AllocationView {
                        last_access: final(self)@.clock,
                        leases: leases_after(a.leases, 1),
                        ..a
                    },
                ),
                None => None,
            }),
            forall|o: Seq<char>|
                o != model_id@ ==> #[trigger] final(self)@.allocation(o) == old(self)@.allocation(o),
    {
        self.adjust_leases(model_id, 1);
        proof {
            let ghost a = match old(self)@.allocation(model_id@) {
                Some(a) => AllocationView {
                    last_access: self@.clock,
                    leases: leases_after(a.leases, 1),
                    ..a
                },
                None => old(self)@.allocation(model_id@).unwrap(),
            };
            lemma_rows_with(old(self)@, model_id@, a, self@, model_id@);
            assert forall|o: Seq<char>| o != model_id@ implies #[trigger] self@.allocation(o) == old(self)@.allocation(o) by {
                lemma_rows_with(old(self)@, model_id@, a, self@, o);
            }
        }
    }

    /// Release a previously acquired inference lease.
    pub fn release_lease(&mut self, model_id: &str)
        requires
            old(self).wf(),
        ensures
            op_allows(old(self)@, MemoryOp::ReleaseLease(model_id@), final(self)@),
            final(self).wf(),
            final(self)@.budget == old(self)@.budget,
            final(self)@.clock >= old(self)@.clock,
            old(self)@.clock < u64::MAX ==> final(self)@.clock > old(self)@.clock,
            final(self)@.rows == (match old(self)@.allocation(model_id@) {
                Some(a) => old(self)@.rows_with(
                    model_id@,
                    AllocationView {
                        last_access: final(self)@.clock,
                        leases: leases_after(a.leases, -1),
                        ..a
                    },
                ),
                None => old(self)@.rows,
            }),
            final(self)@.allocation(model_id@) == (match old(self)@.allocation(model_id@) {
                Some(a) => Some(
                    AllocationView {
                        last_access: final(self)@.clock,
                        leases: leases_after(a.leases, -1),
                        ..a
                    },
                ),
                None => None,
            }),
            forall|o: Seq<char>|
                o != model_id@ ==> #[trigger] final(self)@.allocation(o) == old(self)@.allocation(o),
    {
        self.adjust_leases(model_id, -1);
        proof {
            let ghost a = match old(self)@.allocation(model_id@) {
                Some(a) => AllocationView {
                    last_access: self@.clock,
                    leases: leases_after(a.leases, -1),
                    ..a
                },
                None => old(self)@.allocation(model_id@).unwrap(),
            };
            lemma_rows_with(old(self)@, model_id@, a, self@, model_id@);
            assert forall|o: Seq<char>| o != model_id@ implies #[trigger] self@.allocation(o) == old(self)@.allocation(o) by {
                lemma_rows_with(old(self)@, model_id@, a, self@, o);
            }
        }
    }

    /// Number of active leases on a model (zero without an allocation).
    pub fn lease_count(&self, model_id: &str) -> (r: u32)
        requires
            self.wf(),
        ensures
            r == (match self@.allocation(model_id@) {
                Some(a) => a.leases,
                None => 0,
            }),
    {
        proof {
            lemma_position_bounds(self@.rows, model_id@);
            self.lemma_view_rows();
        }
        match self.find(model_id) {
            Some(p) => self.entries[p].alloc.leases,
            None => 0,
        }
    }

    /// Whether `id` appears in `protected`.
    fn is_protected(protected: &[String], id: &String) -> (r: bool)
        ensures
            r == id_list(protected@).contains(id@),
    {
        let mut i: usize = 0;
        while i < protected.len()
            invariant
                i <= protected@.len(),
                forall|k: int| 0 <= k < i ==> protected@[k]@ != id@,
            decreases protected.len() - i,
        {
            if protected[i] == *id {
                proof {
                    assert(id_list(protected@)[i as int] == id@);
                }
                return true;
            }
            i = i + 1;
        }
        proof {
            if id_list(protected@).contains(id@) {
                let k = choose|k: int| 0 <= k < id_list(protected@).len() && id_list(protected@)[k] == id@;
                assert(protected@[k]@ == id@);
            }
        }
        false
    }

    /// Find the least-recently-used evictable model.
    ///
    /// Models in `protected`, and any model holding an active lease, are never
    /// returned. Returns `None` exactly when no model is evictable.
    pub fn lru_candidate(&self, protected: &[String]) -> (r: Option<String>)
        requires
            self.wf(),
        ensures
            r is None <==> !self@.has_evictable(id_list(protected@)),
            r matches Some(id) ==> self@.is_lru(id@, id_list(protected@)),
    {
        let ghost prot = id_list(protected@);
        proof {
            self.lemma_view_rows();
        }
        let mut best: Option<usize> = None;
        let mut i: usize = 0;
        while i < self.entries.len()
            invariant
                self.wf(),
                prot == id_list(protected@),
                i <= self.entries@.len(),
                self@.rows.len() == self.entries@.len(),
                forall|k: int|
                    0 <= k < self.entries@.len() ==> #[trigger] self@.rows[k] == self.entries@[k].view(),
                best is None ==> forall|k: int| 0 <= k < i ==> !evictable(#[trigger] self@.rows[k], prot),
                best matches Some(b) ==> b < i && evictable(self@.rows[b as int], prot) && forall|k: int|
                    0 <= k < i && evictable(#[trigger] self@.rows[k], prot)
                        ==> self@.rows[b as int].1.last_access <= self@.rows[k].1.last_access,
            decreases self.entries.len() - i,
        {
            let e = &self.entries[i];
            if e.alloc.leases == 0 && !Self::is_protected(protected, &e.model_id) {
                match best {
                    None => {
                        best = Some(i);
                    },
                    Some(b) => {
                        if e.alloc.last_access < self.entries[b].alloc.last_access {
                            best = Some(i);
                        }
                    },
                }
            }
            i = i + 1;
        }
        match best {
            Some(b) => {
                let id = self.entries[b].model_id.clone();
                proof {
                    assert(self@.rows[b as int].0 == id@);
                }
                Some(id)
            },
            None => None,
        }
    }

    /// Return every model whose idle time meets or exceeds `idle`, excluding
    /// leased and `protected` models. Used by the idle-timeout sweep.
    ///
    /// Idleness is measured against the current reading of the monotonic clock
    /// (never earlier than the last stamp issued), via
    /// [`idle_candidates_at`](Self::idle_candidates_at).
    pub fn idle_candidates(&self, idle: Duration, protected: &[String]) -> (r: Vec<String>)
        requires
            self.wf(),
        ensures
            exists|now: u64|
                now >= self@.clock && r@.map_values(|s: String| s@) == idle_ids(
                    self@.rows,
                    now,
                    clamp_nanos(duration_nanos(idle)),
                    id_list(protected@),
                ),
    {
        let observed = nanos_u64(elapsed_since(&self.origin));
        let now = if observed > self.clock {
            observed
        } else {
            self.clock
        };
        self.idle_candidates_at(now, nanos_u64(idle), protected)
    }

    /// Ids of the evictable models idle for at least `idle_nanos` at stamp
    /// `now`, in table order.
    pub fn idle_candidates_at(&self, now: u64, idle_nanos: u64, protected: &[String]) -> (r: Vec<
        String,
    >)
        requires
            self.wf(),
        ensures
            r@.map_values(|s: String| s@) == idle_ids(self@.rows, now, idle_nanos, id_list(protected@)),
    {
        let ghost prot = id_list(protected@);
        proof {
            self.lemma_view_rows();
        }
        let mut out: Vec<String> = Vec::new();
        let mut i: usize = 0;
        while i < self.entries.len()
            invariant
                self.wf(),
                prot == id_list(protected@),
                i <= self.entries@.len(),
                self@.rows.len() == self.entries@.len(),
                forall|k: int|
                    0 <= k < self.entries@.len() ==> #[trigger] self@.rows[k] == self.entries@[k].view(),
                out@.map_values(|s: String| s@) == idle_ids(self@.rows.take(i as int), now, idle_nanos, prot),
            decreases self.entries.len() - i,
        {
            proof {
                lemma_idle_ids_prefix(self@.rows, now, idle_nanos, prot, i as int);
            }
            let e = &self.entries[i];
            let stale = now >= e.alloc.last_access && now - e.alloc.last_access >= idle_nanos;
            if e.alloc.leases == 0 && !Self::is_protected(protected, &e.model_id) && stale {
                let ghost before = out@;
                out.push(e.model_id.clone());
                proof {
                    assert(out@.map_values(|s: String| s@) =~= before.map_values(|s: String| s@).push(
                        self@.rows[i as int].0,
                    ));
                }
            }
            i = i + 1;
        }
        assert(self@.rows.take(i as int) =~= self@.rows);
        out
    }

    /// Snapshot of all current allocations, sorted by model id.
    pub fn snapshot(&self) -> (r: Vec<AllocationSnapshot>)
        requires
            self.wf(),
        ensures
            r@.len() == self@.rows.len(),
            sorted_by_id(r@),
            rows_described(self@.rows, self@.rows.len() as int, r@),
            snaps_described(self@.rows, self@.rows.len() as int, r@),
            snapshot_total(r@) == self@.used(),
    {
        proof {
            self.lemma_view_rows();
        }
        let mut out: Vec<AllocationSnapshot> = Vec::new();
        let mut i: usize = 0;
        proof {
            reveal(rows_described);
            reveal(snaps_described);
        }
        while i < self.entries.len()
            invariant
                self.wf(),
                i <= self.entries@.len(),
                self@.rows.len() == self.entries@.len(),
                forall|k: int|
                    0 <= k < self.entries@.len() ==> #[trigger] self@.rows[k] == self.entries@[k].view(),
                out@.len() == i,
                sorted_by_id(out@),
                rows_described(self@.rows, i as int, out@),
                snaps_described(self@.rows, i as int, out@),
                snapshot_total(out@) == total_reserved(self@.rows.take(i as int)),
            decreases self.entries.len() - i,
        {
            let e = &self.entries[i];
            let snap = AllocationSnapshot {
                model_id: e.model_id.clone(),
                reserved_bytes: e.alloc.reserved_bytes,
                observed_bytes: e.alloc.observed_bytes,
                leases: e.alloc.leases,
            };
            assert(describes(snap, self@.rows[i as int]));
            proof {
                // Ids are unique, so the new id differs from every id already placed.
                assert forall|k: int| 0 <= k < out@.len() implies #[trigger] out@[k].model_id@
                    != snap.model_id@ by {
                    reveal(snaps_described);
                    assert(snap_from(out@[k], self@.rows, i as int));
                    let a = choose|a: int| 0 <= a < i && #[trigger] describes(out@[k], self@.rows[a]);
                    assert(self@.rows[a].0 != self@.rows[i as int].0);
                }
            }
            let ghost before = out@;
            let ghost sv = snap;
            let p = insert_sorted(&mut out, snap);
            proof {
                lemma_snapshot_step_rows(self@.rows, i as int, before, out@, p as int, sv);
                lemma_snapshot_step_snaps(self@.rows, i as int, before, out@, p as int, sv);
                lemma_snapshot_total_insert(before, p as int, sv);
                assert(self@.rows.take(i + 1).drop_last() =~= self@.rows.take(i as int));
            }
            i = i + 1;
        }
        assert(self@.rows.take(i as int) =~= self@.rows);
        out
    }
}

/// Sum of the reserved bytes of `snaps`.
pub open spec fn snapshot_total(snaps: Seq<AllocationSnapshot>) -> int
    decreases snaps.len(),
{
    if snaps.len() == 0 {
        0
    } else {
        snapshot_total(snaps.drop_last()) + snaps.last().reserved_bytes
    }
}

proof fn lemma_snapshot_total_insert(snaps: Seq<AllocationSnapshot>, p: int, x: AllocationSnapshot)
    requires
        0 <= p <= snaps.len(),
    ensures
        snapshot_total(snaps.insert(p, x)) == snapshot_total(snaps) + x.reserved_bytes,
    decreases snaps.len(),
{
    if p == snaps.len() {
        assert(snaps.insert(p, x).drop_last() =~= snaps);
    } else {
        assert(snaps.insert(p, x).drop_last() =~= snaps.drop_last().insert(p, x));
        lemma_snapshot_total_insert(snaps.drop_last(), p, x);
    }
}

/// The bytes available are the budget less the bytes in use, never below
/// zero and never above the budget, and the bytes in use fit in `u64` (so
/// reading them never overflows, even after an over-committing `allocate`).
pub proof fn law_available_within_budget(m: &MemoryManager)
    requires
        m.wf(),
    ensures
        0 <= m@.used() <= u64::MAX,
        m@.available() == (if m@.used() >= m@.budget { 0 } else { m@.budget - m@.used() }),
        0 <= m@.available() <= m@.budget,
{
    lemma_total_nonneg_bounds(m@.rows, Seq::empty());
}

/// Whether `snap` describes `row` (everything but the recency stamp).
pub open spec fn describes(snap: AllocationSnapshot, row: Row) -> bool {
    &&& snap.model_id@ == row.0
    &&& snap.reserved_bytes == row.1.reserved_bytes
    &&& snap.observed_bytes == row.1.observed_bytes
    &&& snap.leases == row.1.leases
}

/// Every row below `n` is described by some snapshot in `out`.
#[verifier::opaque]
pub open spec fn rows_described(rows: Seq<Row>, n: int, out: Seq<AllocationSnapshot>) -> bool {
    forall|a: int| 0 <= a < n ==> #[trigger] row_in(rows[a], out)
}

/// Some snapshot in `out` describes `row`.
pub open spec fn row_in(row: Row, out: Seq<AllocationSnapshot>) -> bool {
    exists|k: int| 0 <= k < out.len() && #[trigger] describes(out[k], row)
}

/// Every snapshot in `out` describes some row below `n`.
#[verifier::opaque]
pub open spec fn snaps_described(rows: Seq<Row>, n: int, out: Seq<AllocationSnapshot>) -> bool {
    forall|k: int| 0 <= k < out.len() ==> #[trigger] snap_from(out[k], rows, n)
}

/// `snap` describes some row below `n`.
pub open spec fn snap_from(snap: AllocationSnapshot, rows: Seq<Row>, n: int) -> bool {
    exists|a: int| 0 <= a < n && #[trigger] describes(snap, rows[a])
}

proof fn lemma_snapshot_step_rows(
    rows: Seq<Row>,
    i: int,
    before: Seq<AllocationSnapshot>,
    after: Seq<AllocationSnapshot>,
    p: int,
    snap: AllocationSnapshot,
)
    requires
        0 <= i < rows.len(),
        0 <= p <= before.len(),
        after == before.insert(p, snap),
        describes(snap, rows[i]),
        rows_described(rows, i, before),
    ensures
        rows_described(rows, i + 1, after),
{
    reveal(rows_described);
    assert forall|a: int| 0 <= a < i + 1 implies #[trigger] row_in(rows[a], after) by {
        if a == i {
            assert(after[p] == snap);
            assert(describes(after[p], rows[a]));
        } else {
            assert(row_in(rows[a], before));
            let k = choose|k: int| 0 <= k < before.len() && #[trigger] describes(before[k], rows[a]);
            if k < p {
                assert(after[k] == before[k]);
                assert(describes(after[k], rows[a]));
            } else {
                assert(after[k + 1] == before[k]);
                assert(describes(after[k + 1], rows[a]));
            }
        }
    }
}

proof fn lemma_snapshot_step_snaps(
    rows: Seq<Row>,
    i: int,
    before: Seq<AllocationSnapshot>,
    after: Seq<AllocationSnapshot>,
    p: int,
    snap: AllocationSnapshot,
)
    requires
        0 <= i < rows.len(),
        0 <= p <= before.len(),
        after == before.insert(p, snap),
        describes(snap, rows[i]),
        snaps_described(rows, i, before),
    ensures
        snaps_described(rows, i + 1, after),
{
    reveal(snaps_described);
    assert forall|k: int| 0 <= k < after.len() implies #[trigger] snap_from(after[k], rows, i + 1) by {
        if k == p {
            assert(describes(after[k], rows[i]));
        } else if k < p {
            assert(after[k] == before[k]);
            assert(snap_from(before[k], rows, i));
            let a = choose|a: int| 0 <= a < i && #[trigger] describes(before[k], rows[a]);
            assert(describes(after[k], rows[a]));
        } else {
            assert(after[k] == before[k - 1]);
            assert(snap_from(before[k - 1], rows, i));
            let a = choose|a: int| 0 <= a < i && #[trigger] describes(before[k - 1], rows[a]);
            assert(describes(after[k], rows[a]));
        }
    }
}

/// Snapshots strictly increasing by model id.
pub open spec fn sorted_by_id(s: Seq<AllocationSnapshot>) -> bool {
    forall|i: int, j: int|
        #![trigger s[i], s[j]]
        0 <= i < j < s.len() ==> chars_lt(s[i].model_id@, s[j].model_id@)
}

/// Insert `snap` into the id-sorted `out` at its place; returns the index.
fn insert_sorted(out: &mut Vec<AllocationSnapshot>, snap: AllocationSnapshot) -> (p: usize)
    requires
        sorted_by_id(old(out)@),
        forall|k: int| 0 <= k < old(out)@.len() ==> #[trigger] old(out)@[k].model_id@ != snap.model_id@,
    ensures
        p <= old(out)@.len(),
        final(out)@ == old(out)@.insert(p as int, snap),
        sorted_by_id(final(out)@),
{
    let mut p: usize = 0;
    while p < out.len() && str_lt(out[p].model_id.as_str(), snap.model_id.as_str())
        invariant
            p <= out@.len(),
            forall|a: int| 0 <= a < p ==> chars_lt(#[trigger] out@[a].model_id@, snap.model_id@),
        decreases out.len() - p,
    {
        p = p + 1;
    }
    proof {
        if p < out@.len() {
            crate::text::lemma_chars_lt_total(out@[p as int].model_id@, snap.model_id@);
            assert forall|k: int| p <= k < out@.len() implies chars_lt(
                snap.model_id@,
                #[trigger] out@[k].model_id@,
            ) by {
                if k > p {
                    crate::text::lemma_chars_lt_trans(
                        snap.model_id@,
                        out@[p as int].model_id@,
                        out@[k].model_id@,
                    );
                }
            }
        }
    }
    let ghost before = out@;
    let ghost sid = snap.model_id@;
    out.insert(p, snap);
    proof {
        assert forall|a: int, b: int|
            #![trigger out@[a], out@[b]]
            0 <= a < b < out@.len() implies chars_lt(out@[a].model_id@, out@[b].model_id@) by {
            if b < p {
                assert(out@[a] == before[a] && out@[b] == before[b]);
            } else if b == p {
                assert(out@[a] == before[a]);
            } else if a < p {
                assert(out@[a] == before[a]);
                assert(out@[b] == before[b - 1]);
                crate::text::lemma_chars_lt_trans(before[a].model_id@, sid, before[b - 1].model_id@);
            } else if a == p {
                assert(out@[b] == before[b - 1]);
            } else {
                assert(out@[a] == before[a - 1] && out@[b] == before[b - 1]);
            }
        }
    }
    p
}

proof fn lemma_position_update(rows: Seq<Row>, p: int, row: Row, id: Seq<char>)
    requires
        ids_unique(rows),
        0 <= p < rows.len(),
        row.0 == rows[p].0,
    ensures
        ids_unique(rows.update(p, row)),
        position(rows.update(p, row), id) == position(rows, id),
{
    let u = rows.update(p, row);
    assert forall|i: int, j: int| 0 <= i < j < u.len() implies u[i].0 != u[j].0 by {
        assert(rows[i].0 != rows[j].0);
    }
    lemma_position_bounds(rows, id);
    lemma_position_bounds(u, id);
    let q = position(rows, id);
    if q >= 0 {
        lemma_position_unique(u, id, q);
    } else if position(u, id) >= 0 {
        let r = position(u, id);
        assert(rows[r].0 == id);
    }
}

/// Law: admission never over-commits. If the budget holds before a
/// reservation that [`MemoryView::fits`], it holds after it; and the total
/// afterwards is exactly the other models' reservations plus the new one.
pub proof fn law_admission_within_budget(v: MemoryView, id: Seq<char>, bytes: u64, stamp: u64)
    requires
        ids_unique(v.rows),
        v.fits(id, bytes),
    ensures
        total_reserved(v.rows_after_reserve(id, bytes, stamp)) == reserved_by_others(v.rows, id)
            + bytes,
        total_reserved(v.rows_after_reserve(id, bytes, stamp)) <= v.budget,
{
    lemma_position_bounds(v.rows, id);
    let p = position(v.rows, id);
    if p >= 0 {
        lemma_others_present(v.rows, id);
        lemma_total_update(v.rows, p, v.rows_after_reserve(id, bytes, stamp)[p]);
    } else {
        lemma_others_absent(v.rows, id);
        lemma_total_push(v.rows, v.rows_after_reserve(id, bytes, stamp).last());
    }
}

/// Law: re-reserving replaces rather than adds. After a reservation of
/// `bytes` for `id`, `id` holds exactly `bytes` (keeping its leases and
/// observed figure), and every other model's accounting is unchanged.
pub proof fn law_reserve_replaces(v: MemoryView, id: Seq<char>, bytes: u64, stamp: u64, other: Seq<char>)
    requires
        ids_unique(v.rows),
        other != id,
    ensures
        ({
            let after = MemoryView { rows: v.rows_after_reserve(id, bytes, stamp), ..v };
            &&& after.allocation(id) matches Some(a) && a.reserved_bytes == bytes && a.last_access
                == stamp
            &&& v.allocation(id) matches Some(b) ==> (after.allocation(id) matches Some(a) && a.leases
                == b.leases && a.observed_bytes == b.observed_bytes)
            &&& v.allocation(id) is None ==> (after.allocation(id) matches Some(a) && a.leases == 0)
            &&& after.allocation(other) == v.allocation(other)
        }),
{
    lemma_position_bounds(v.rows, id);
    lemma_position_bounds(v.rows, other);
    let rows2 = v.rows_after_reserve(id, bytes, stamp);
    let p = position(v.rows, id);
    if p >= 0 {
        lemma_position_update(v.rows, p, rows2[p], id);
        lemma_position_update(v.rows, p, rows2[p], other);
        lemma_position_unique(rows2, id, p);
    } else {
        let n = v.rows.len() as int;
        assert(rows2.drop_last() =~= v.rows);
        assert(position(rows2, id) == n);
        lemma_position_bounds(rows2, other);
        assert(position(rows2, other) == position(v.rows, other));
        if position(v.rows, other) >= 0 {
            assert(rows2[position(v.rows, other)] == v.rows[position(v.rows, other)]);
        }
    }
}

/// Law: acquiring then releasing a lease restores the lease count (below the
/// saturation bound); releasing never goes below zero.
pub proof fn law_lease_round_trip(leases: u32)
    ensures
        leases < u32::MAX ==> leases_after(leases_after(leases, 1), -1) == leases,
        leases_after(0, -1) == 0,
{
}

/// Law: a leased model is never the LRU eviction candidate, and neither is a
/// protected one.
pub proof fn law_leased_or_protected_never_lru(v: MemoryView, id: Seq<char>, protected: Seq<Seq<char>>)
    requires
        ids_unique(v.rows),
        (v.allocation(id) matches Some(a) && a.leases > 0) || protected.contains(id),
    ensures
        !v.is_lru(id, protected),
{
    if v.is_lru(id, protected) {
        let i = choose|i: int|
            0 <= i < v.rows.len() && #[trigger] v.rows[i].0 == id && evictable(v.rows[i], protected)
                && forall|j: int|
                0 <= j < v.rows.len() && evictable(#[trigger] v.rows[j], protected)
                    ==> v.rows[i].1.last_access <= v.rows[j].1.last_access;
        lemma_position_unique(v.rows, id, i);
    }
}

/// Law: the idle sweep never selects a leased or protected model, and every
/// model it selects has been idle for at least `idle`.
pub proof fn law_idle_sweep_respects_leases(
    rows: Seq<Row>,
    now: u64,
    idle: u64,
    protected: Seq<Seq<char>>,
    k: int,
)
    requires
        0 <= k < idle_ids(rows, now, idle, protected).len(),
    ensures
        exists|i: int|
            0 <= i < rows.len() && #[trigger] rows[i].0 == idle_ids(rows, now, idle, protected)[k]
                && rows[i].1.leases == 0 && !protected.contains(rows[i].0) && idle_at(
                rows[i],
                now,
                idle,
            ),
    decreases rows.len(),
{
    let init = rows.drop_last();
    let prefix = idle_ids(init, now, idle, protected);
    if k < prefix.len() {
        law_idle_sweep_respects_leases(init, now, idle, protected, k);
        let i = choose|i: int|
            0 <= i < init.len() && #[trigger] init[i].0 == idle_ids(init, now, idle, protected)[k]
                && init[i].1.leases == 0 && !protected.contains(init[i].0) && idle_at(
                init[i],
                now,
                idle,
            );
        assert(rows[i] == init[i]);
    } else {
        assert(rows[rows.len() - 1] == rows.last());
    }
}

/// Law: releasing a reservation frees exactly its bytes.
pub proof fn law_deallocate_frees(v: MemoryView, id: Seq<char>)
    requires
        ids_unique(v.rows),
        v.allocation(id) is Some,
    ensures
        total_reserved(v.rows.remove(position(v.rows, id))) == v.used() - v.allocation(
            id,
        ).unwrap().reserved_bytes,
{
    lemma_position_bounds(v.rows, id);
    lemma_total_remove(v.rows, position(v.rows, id));
}

/// Law: admission by eviction makes progress. The model an admission step
/// names for eviction holds a row, so deallocating it removes exactly that
/// row; the admit-evict loop therefore ends after at most as many evictions
/// as the table has rows.
pub proof fn law_eviction_shrinks_table(m: &MemoryManager, victim: Seq<char>, protected: Seq<Seq<char>>)
    requires
        m.wf(),
        m@.is_lru(victim, protected),
    ensures
        m@.allocation(victim) is Some,
        m@.rows.remove(position(m@.rows, victim)).len() == m@.rows.len() - 1,
{
    let v = m@;
    let i = choose|i: int|
        0 <= i < v.rows.len() && #[trigger] v.rows[i].0 == victim && evictable(v.rows[i], protected) && forall|j: int|
            0 <= j < v.rows.len() && evictable(#[trigger] v.rows[j], protected) ==> v.rows[i].1.last_access
                <= v.rows[j].1.last_access;
    lemma_position_unique(v.rows, victim, i);
}

/// A call on a [`MemoryManager`] that changes its table, by its arguments.
pub enum MemoryOp {
    TryReserve(Seq<char>, u64),
    Allocate(Seq<char>, u64),
    Deallocate(Seq<char>),
    Reconcile(Seq<char>, u64),
    Touch(Seq<char>),
    Lease(Seq<char>),
    ReleaseLease(Seq<char>),
}

/// The rows after a lease change of `delta` on `id`, stamped `stamp`.
pub open spec fn rows_after_lease(v: MemoryView, id: Seq<char>, delta: int, stamp: u64) -> Seq<Row> {
    match v.allocation(id) {
        Some(a) => v.rows_with(id, AllocationView { last_access: stamp, leases: leases_after(a.leases, delta), ..a }),
        None => v.rows,
    }
}

/// What the contract of `op` guarantees of the table `w` after it when
/// applied to `v`: the budget is kept, ids stay unique, and the rows change
/// as the operation says (the clock may move on).
pub open spec fn op_allows(v: MemoryView, op: MemoryOp, w: MemoryView) -> bool {
    &&& w.budget == v.budget
    &&& ids_unique(w.rows)
    &&& match op {
        MemoryOp::TryReserve(id, bytes) => if v.fits(id, bytes) {
            w.rows == v.rows_after_reserve(id, bytes, w.clock)
        } else {
            w == v
        },
        MemoryOp::Allocate(id, bytes) => w.rows == v.rows_after_reserve(id, bytes, w.clock),
        MemoryOp::Deallocate(id) => if position(v.rows, id) >= 0 {
            w.rows == v.rows.remove(position(v.rows, id))
        } else {
            w.rows == v.rows
        },
        MemoryOp::Reconcile(id, observed) => w.rows == (match v.allocation(id) {
            Some(a) => v.rows_with(
                id,
                AllocationView {
                    reserved_bytes: if a.reserved_bytes >= observed { a.reserved_bytes } else { observed },
                    observed_bytes: Some(observed),
                    ..a
                },
            ),
            None => v.rows,
        }),
        MemoryOp::Touch(id) => w.rows == rows_after_lease(v, id, 0, w.clock),
        MemoryOp::Lease(id) => w.rows == rows_after_lease(v, id, 1, w.clock),
        MemoryOp::ReleaseLease(id) => w.rows == rows_after_lease(v, id, -1, w.clock),
    }
}

/// Whether `views` is a run of the table through `ops`: each view follows
/// from the one before by the next operation.
pub open spec fn is_run(views: Seq<MemoryView>, ops: Seq<MemoryOp>) -> bool {
    &&& views.len() == ops.len() + 1
    &&& forall|k: int| 0 <= k < ops.len() ==> #[trigger] op_allows(views[k], ops[k], views[k + 1])
}

/// Whether `op` only reserves within the budget or frees: neither an
/// unconditional `allocate` nor a `reconcile` to an observed figure.
pub open spec fn is_admission_op(op: MemoryOp) -> bool {
    !(op is Allocate) && !(op is Reconcile)
}

/// Law: the budget fixed when the table was created never changes, under
/// any sequence of operations with any arguments.
pub proof fn law_budget_fixed(views: Seq<MemoryView>, ops: Seq<MemoryOp>)
    requires
        is_run(views, ops),
    ensures
        forall|k: int| 0 <= k < views.len() ==> #[trigger] views[k].budget == views[0].budget,
{
    assert forall|k: int| 0 <= k < views.len() implies #[trigger] views[k].budget == views[0].budget by {
        lemma_budget_prefix(views, ops, k);
    }
}

proof fn lemma_budget_prefix(views: Seq<MemoryView>, ops: Seq<MemoryOp>, k: int)
    requires
        is_run(views, ops),
        0 <= k < views.len(),
    ensures
        views[k].budget == views[0].budget,
    decreases k,
{
    if k > 0 {
        lemma_budget_prefix(views, ops, k - 1);
        let j = k - 1;
        assert(op_allows(views[j], ops[j], views[j + 1]));
        assert(views[j + 1] == views[k]);
    }
}

proof fn lemma_lease_keeps_used(v: MemoryView, id: Seq<char>, delta: int, stamp: u64)
    requires
        ids_unique(v.rows),
    ensures
        total_reserved(rows_after_lease(v, id, delta, stamp)) == v.used(),
{
    lemma_position_bounds(v.rows, id);
    let p = position(v.rows, id);
    if p >= 0 {
        lemma_total_update(v.rows, p, rows_after_lease(v, id, delta, stamp)[p]);
    }
}

proof fn lemma_admission_step_within(v: MemoryView, op: MemoryOp, w: MemoryView)
    requires
        ids_unique(v.rows),
        v.used() <= v.budget,
        is_admission_op(op),
        op_allows(v, op, w),
    ensures
        w.used() <= w.budget,
{
    match op {
        MemoryOp::TryReserve(id, bytes) => {
            if v.fits(id, bytes) {
                law_admission_within_budget(v, id, bytes, w.clock);
            }
        },
        MemoryOp::Deallocate(id) => {
            lemma_position_bounds(v.rows, id);
            if position(v.rows, id) >= 0 {
                lemma_total_remove(v.rows, position(v.rows, id));
            }
        },
        MemoryOp::Touch(id) => {
            lemma_lease_keeps_used(v, id, 0, w.clock);
        },
        MemoryOp::Lease(id) => {
            lemma_lease_keeps_used(v, id, 1, w.clock);
        },
        MemoryOp::ReleaseLease(id) => {
            lemma_lease_keeps_used(v, id, -1, w.clock);
        },
        _ => {},
    }
}

proof fn lemma_admission_prefix(views: Seq<MemoryView>, ops: Seq<MemoryOp>, k: int)
    requires
        is_run(views, ops),
        ids_unique(views[0].rows),
        views[0].used() <= views[0].budget,
        forall|i: int| 0 <= i < ops.len() ==> #[trigger] is_admission_op(ops[i]),
        0 <= k < views.len(),
    ensures
        views[k].used() <= views[k].budget,
        ids_unique(views[k].rows),
    decreases k,
{
    if k > 0 {
        lemma_admission_prefix(views, ops, k - 1);
        let j = k - 1;
        assert(op_allows(views[j], ops[j], views[j + 1]));
        assert(views[j + 1] == views[k]);
        assert(is_admission_op(ops[j]));
        lemma_admission_step_within(views[j], ops[j], views[k]);
    }
}

/// Law: reservations never exceed the budget. Starting within the budget,
/// every table reached by any sequence of `try_reserve`, `deallocate`,
/// `touch`, `lease` and `release_lease` calls, with any arguments, still
/// holds at most the budget. (Each call takes the table exclusively, so
/// callers sharing it run these calls in some serial order.)
pub proof fn law_reservations_within_budget(views: Seq<MemoryView>, ops: Seq<MemoryOp>)
    requires
        is_run(views, ops),
        ids_unique(views[0].rows),
        views[0].used() <= views[0].budget,
        forall|i: int| 0 <= i < ops.len() ==> #[trigger] is_admission_op(ops[i]),
    ensures
        forall|k: int| 0 <= k < views.len() ==> #[trigger] views[k].used() <= views[k].budget,
{
    assert forall|k: int| 0 <= k < views.len() implies #[trigger] views[k].used() <= views[k].budget by {
        lemma_admission_prefix(views, ops, k);
    }
}

/// Leases after a change of `delta` (saturating at both ends of `u32`).
pub open spec fn leases_after(leases: u32, delta: int) -> u32 {
    if delta > 0 {
        if leases == u32::MAX {
            leases
        } else {
            (leases + 1) as u32
        }
    } else if delta < 0 {
        if leases == 0 {
            0
        } else {
            (leases - 1) as u32
        }
    } else {
        leases
    }
}

/// `a * b` saturating at `u64::MAX`.
pub open spec fn mul_saturating(a: u64, b: u64) -> u64 {
    if a * b > u64::MAX {
        u64::MAX
    } else {
        (a * b) as u64
    }
}

/// 70% of `total` bytes, rounded down.
pub open spec fn seventy_percent_of(total: u64) -> int {
    total * 7 / 10
}

/// 70% of `total`, rounded down.
pub fn seventy_percent(total: u64) -> (r: u64)
    ensures
        r == total * 7 / 10,
{
    let tenths = total / 10;
    let rest = total % 10;
    proof {
        assert(total == tenths * 10 + rest);
        assert(total * 7 / 10 == tenths * 7 + rest * 7 / 10) by (nonlinear_arith)
            requires
                total == tenths * 10 + rest,
                0 <= rest < 10,
        ;
    }
    tenths * 7 + rest * 7 / 10
}

} // verus!
