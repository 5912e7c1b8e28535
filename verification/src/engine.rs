//! The engine's own bookkeeping: the rolling lifecycle history, the memory
//! report, the decision steps of memory admission, and the scope a request's
//! history is kept under.

use vstd::prelude::*;

use crate::catalog::{capability_name, Capability, ModelCard, ModelResidency};
use crate::kernel::EngineError;
use crate::paths::{component_prefix, path_starts_with};
use crate::shared_map::{
    no_pending, pending_table, pending_table_contains, pending_table_insert, pending_table_len,
    pending_table_new, pending_table_remove, pending_table_some_key, PendingTable,
};
use crate::memory::{id_list, AllocationSnapshot, MemoryManager, MemoryView};
use crate::preflight::bump;
use crate::text::{
    chars_lt, concat, contains_seq, find_seq, first_occurrence, lemma_chars_lt_irrefl,
    lemma_chars_lt_total, lemma_chars_lt_trans, owned, str_eq, str_lt, substring,
};

verus! {

/// Records the lifecycle history keeps.
pub const LIFECYCLE_CAPACITY: usize = 256;

/// The scope under which history shared by all applications is kept.
pub const GLOBAL_SCOPE: &'static str = "__global__";

/// One entry of the model lifecycle history.
#[derive(Debug, Clone)]
pub struct LifecycleRecord {
    /// Sequence number.
    pub seq: u64,
    /// Milliseconds since the engine started.
    pub at_ms: u64,
    /// The model concerned.
    pub model_id: String,
    /// `load`, `unload`, `evict`, `idle_unload`, `load_failed`, ...
    pub event: String,
    /// Optional detail.
    pub detail: Option<String>,
}

/// A lifecycle record as contracts speak of it.
pub struct LifecycleView {
    pub seq: u64,
    pub at_ms: u64,
    pub model_id: Seq<char>,
    pub event: Seq<char>,
    pub detail: Option<Seq<char>>,
}

impl View for LifecycleRecord {
    type V = LifecycleView;

    open spec fn view(&self) -> LifecycleView {
        LifecycleView {
            seq: self.seq,
            at_ms: self.at_ms,
            model_id: self.model_id@,
            event: self.event@,
            detail: match self.detail {
                Some(d) => Some(d@),
                None => None,
            },
        }
    }
}

/// The views of a list of records.
pub open spec fn record_views(s: Seq<LifecycleRecord>) -> Seq<LifecycleView> {
    s.map_values(|r: LifecycleRecord| r@)
}

/// The last `cap` elements of `s` (all of it when shorter).
pub open spec fn keep_last<A>(s: Seq<A>, cap: int) -> Seq<A> {
    if s.len() > cap {
        s.skip(s.len() - cap)
    } else {
        s
    }
}

/// The rolling lifecycle history, oldest first, bounded by
/// [`LIFECYCLE_CAPACITY`].
pub struct LifecycleLog {
    records: Vec<LifecycleRecord>,
    next_seq: u64,
}

impl LifecycleLog {
    /// The records held, oldest first.
    pub closed spec fn history(&self) -> Seq<LifecycleView> {
        record_views(self.records@)
    }

    /// The sequence number the next record gets.
    pub closed spec fn next(&self) -> u64 {
        self.next_seq
    }

    #[verifier::type_invariant]
    spec fn bounded(&self) -> bool {
        self.records@.len() <= LIFECYCLE_CAPACITY
    }

    /// An empty history whose first record gets sequence number 0.
    pub fn new() -> (r: Self)
        ensures
            r.history() == Seq::<LifecycleView>::empty(),
            r.next() == 0,
    {
        let r = LifecycleLog { records: Vec::new(), next_seq: 0 };
        assert(r.history() =~= Seq::<LifecycleView>::empty());
        r
    }

    /// Append a record of `event` for `model_id` at `at_ms`, dropping the
    /// oldest record when the history is full.
    pub fn record(&mut self, model_id: &str, event: &str, detail: Option<&str>, at_ms: u64)
        ensures
            final(self).history() == keep_last(
                old(self).history().push(
                    LifecycleView {
                        seq: old(self).next(),
                        at_ms,
                        model_id: model_id@,
                        event: event@,
                        detail: match detail {
                            Some(d) => Some(d@),
                            None => None,
                        },
                    },
                ),
                LIFECYCLE_CAPACITY as int,
            ),
            final(self).next() == bump(old(self).next()),
            final(self).history().len() <= LIFECYCLE_CAPACITY,
    {
        proof {
            use_type_invariant(&*self);
        }
        let rec = LifecycleRecord {
            seq: self.next_seq,
            at_ms,
            model_id: owned(model_id),
            event: owned(event),
            detail: match detail {
                Some(d) => Some(owned(d)),
                None => None,
            },
        };
        let ghost before = self.records@;
        let mut records = Vec::new();
        std::mem::swap(&mut records, &mut self.records);
        if records.len() >= LIFECYCLE_CAPACITY {
            let _ = records.remove(0);
        }
        records.push(rec);
        proof {
            if before.len() >= LIFECYCLE_CAPACITY {
                assert(records@ =~= before.push(rec).skip(1));
                assert(record_views(records@) =~= record_views(before.push(rec)).skip(1));
            } else {
                assert(records@ =~= before.push(rec));
            }
            assert(record_views(before.push(rec)) =~= record_views(before).push(rec@));
        }
        self.records = records;
        self.next_seq = self.next_seq.wrapping_add(1);
    }

    /// The records held, oldest first.
    pub fn history_records(&self) -> (r: Vec<LifecycleRecord>)
        ensures
            record_views(r@) == self.history(),
    {
        let mut out: Vec<LifecycleRecord> = Vec::new();
        let mut i: usize = 0;
        while i < self.records.len()
            invariant
                i <= self.records@.len(),
                record_views(out@) == record_views(self.records@.take(i as int)),
            decreases self.records.len() - i,
        {
            let r = &self.records[i];
            let copy = LifecycleRecord {
                seq: r.seq,
                at_ms: r.at_ms,
                model_id: r.model_id.clone(),
                event: r.event.clone(),
                detail: match &r.detail {
                    Some(d) => Some(d.clone()),
                    None => None,
                },
            };
            let ghost before = out@;
            out.push(copy);
            assert(record_views(out@) =~= record_views(before).push(copy@));
            assert(record_views(self.records@.take(i as int + 1)) =~= record_views(
                self.records@.take(i as int),
            ).push(self.records@[i as int]@));
            i = i + 1;
        }
        assert(self.records@.take(i as int) =~= self.records@);
        out
    }
}

/// The lifecycle event an unload with `reason` is recorded as: the idle sweep
/// is an `idle_unload`, an operator's request an `unload`, anything else (memory
/// pressure) an `evict`.
pub open spec fn unload_event_for(reason: Seq<char>) -> Seq<char> {
    if reason == "idle_timeout"@ {
        "idle_unload"@
    } else if reason == "manual"@ {
        "unload"@
    } else {
        "evict"@
    }
}

/// Compute [`unload_event_for`].
pub fn unload_event(reason: &str) -> (r: &'static str)
    ensures
        r@ == unload_event_for(reason@),
{
    if str_eq(reason, "idle_timeout") {
        "idle_unload"
    } else if str_eq(reason, "manual") {
        "unload"
    } else {
        "evict"
    }
}

/// A snapshot of the engine's memory accounting.
pub struct MemoryReport {
    /// Bytes reserved across all models.
    pub used_bytes: u64,
    /// Total budget.
    pub budget_bytes: u64,
    /// Bytes still free within the budget.
    pub available_bytes: u64,
    /// Per-model allocations, sorted by model id.
    pub allocations: Vec<AllocationSnapshot>,
}

/// The report of a memory manager's accounting.
pub fn memory_report(memory: &MemoryManager) -> (r: MemoryReport)
    requires
        memory.wf(),
    ensures
        r.used_bytes == memory@.used(),
        r.budget_bytes == memory@.budget,
        r.available_bytes == memory@.available(),
        r.allocations@.len() == memory@.rows.len(),
        crate::memory::sorted_by_id(r.allocations@),
        crate::memory::rows_described(memory@.rows, memory@.rows.len() as int, r.allocations@),
        crate::memory::snaps_described(memory@.rows, memory@.rows.len() as int, r.allocations@),
{
    MemoryReport {
        used_bytes: memory.used_bytes(),
        budget_bytes: memory.budget_bytes(),
        available_bytes: memory.available_bytes(),
        allocations: memory.snapshot(),
    }
}

/// What admitting a model's memory calls for next.
pub enum Admission {
    /// The reservation was made.
    Admitted,
    /// Unload this model, then try again.
    Evict(String),
    /// Nothing more can be evicted: the request is refused with this error.
    Refused(EngineError),
}

/// One step of admitting `bytes` for `model_id`: reserve if it fits; else name
/// the least-recently-used model that may be evicted (never `model_id` itself
/// nor one in `protected`); else refuse with memory pressure. The caller
/// unloads an evicted model and steps again.
pub fn admission_step(memory: &mut MemoryManager, model_id: &str, bytes: u64, protected: &[String]) -> (r:
    Admission)
    requires
        old(memory).wf(),
    ensures
        final(memory).wf(),
        old(memory)@.fits(model_id@, bytes) <==> r is Admitted,
        r is Admitted ==> final(memory)@.rows == old(memory)@.rows_after_reserve(
            model_id@,
            bytes,
            final(memory)@.clock,
        ) && final(memory)@.budget == old(memory)@.budget,
        !(r is Admitted) ==> final(memory)@ == old(memory)@,
        r matches Admission::Evict(v) ==> old(memory)@.is_lru(v@, id_list(protected@).push(model_id@)),
        r is Refused <==> !old(memory)@.fits(model_id@, bytes) && !old(memory)@.has_evictable(
            id_list(protected@).push(model_id@),
        ),
        r matches Admission::Refused(e) ==> e == (EngineError::MemoryPressure {
            need: bytes,
            available: old(memory)@.available() as u64,
        }),
{
    if memory.try_reserve(model_id, bytes) {
        return Admission::Admitted;
    }
    let mut guarded: Vec<String> = Vec::new();
    let mut i: usize = 0;
    while i < protected.len()
        invariant
            i <= protected@.len(),
            id_list(guarded@) == id_list(protected@).take(i as int),
        decreases protected.len() - i,
    {
        let ghost before = guarded@;
        guarded.push(protected[i].clone());
        assert(id_list(guarded@) =~= id_list(before).push(protected@[i as int]@));
        assert(id_list(protected@).take(i as int + 1) =~= id_list(protected@).take(i as int).push(
            protected@[i as int]@,
        ));
        i = i + 1;
    }
    let ghost before = guarded@;
    guarded.push(owned(model_id));
    assert(id_list(protected@).take(protected@.len() as int) =~= id_list(protected@));
    assert(id_list(guarded@) =~= id_list(before).push(model_id@));
    match memory.lru_candidate(guarded.as_slice()) {
        Some(victim) => Admission::Evict(victim),
        None => {
            let available = memory.available_bytes();
            Admission::Refused(EngineError::MemoryPressure { need: bytes, available })
        },
    }
}

/// The scope a request's history is kept under: its session, else its
/// application, else the global scope.
pub open spec fn scope_of(session_id: Option<String>, app_id: Option<String>) -> Seq<char> {
    match session_id {
        Some(s) => s@,
        None => match app_id {
            Some(a) => a@,
            None => GLOBAL_SCOPE@,
        },
    }
}

/// Compute [`scope_of`].
pub fn scope_key(session_id: Option<String>, app_id: Option<String>) -> (r: String)
    ensures
        r@ == scope_of(session_id, app_id),
{
    match session_id {
        Some(s) => s,
        None => match app_id {
            Some(a) => a,
            None => owned(GLOBAL_SCOPE),
        },
    }
}

/// Ids joined with `, `.
pub open spec fn joined(ids: Seq<Seq<char>>) -> Seq<char>
    decreases ids.len(),
{
    if ids.len() == 0 {
        Seq::empty()
    } else if ids.len() == 1 {
        ids[0]
    } else {
        joined(ids.drop_last()) + ", "@ + ids.last()
    }
}

/// The ids of the models called `target`, in order.
pub open spec fn ids_named(models: Seq<(String, String)>, target: Seq<char>) -> Seq<Seq<char>>
    decreases models.len(),
{
    if models.len() == 0 {
        Seq::empty()
    } else {
        let rest = ids_named(models.drop_last(), target);
        if models.last().0@ == target {
            rest.push(models.last().1@)
        } else {
            rest
        }
    }
}

/// Whether `target` names its provider explicitly: with `::`, or with a `/`
/// whose prefix is a registered provider.
pub open spec fn is_qualified(target: Seq<char>, providers: Seq<Seq<char>>) -> bool {
    contains_seq(target, "::"@) || match first_occurrence(target, "/"@) {
        Some(i) => providers.contains(target.take(i)),
        None => false,
    }
}

/// Refuse a request naming a model by a bare name that several models share
/// (`models` holds each model's `(name, id)`), listing their ids.
pub fn check_model_name(target: Option<&str>, providers: &[String], models: &[(String, String)]) -> (r: Result<
    (),
    EngineError,
>)
    ensures
        ({
            match target {
                None => r is Ok,
                Some(t) => if is_qualified(t@, providers@.map_values(|p: String| p@)) || ids_named(models@, t@).len() <= 1 {
                    r is Ok
                } else {
                    r matches Err(EngineError::InvalidRequest(m)) && m@ == "model name '"@ + t@
                        + "' is ambiguous; use one of: "@ + joined(ids_named(models@, t@))
                },
            }
        }),
{
    let t = match target {
        None => {
            return Ok(());
        },
        Some(t) => t,
    };
    let ghost names = providers@.map_values(|p: String| p@);
    proof {
        reveal_strlit("::");
        reveal_strlit("/");
    }
    if find_seq(t, "::").is_some() {
        return Ok(());
    }
    if let Some(i) = find_seq(t, "/") {
        let prefix = substring(t, 0, i);
        assert(prefix@ =~= t@.take(i as int));
        let mut k: usize = 0;
        while k < providers.len()
            invariant
                names == providers@.map_values(|p: String| p@),
                target == Some(t),
                first_occurrence(t@, "/"@) == Some(i as int),
                prefix@ == t@.take(i as int),
                k <= providers@.len(),
                forall|j: int| 0 <= j < k ==> names[j] != prefix@,
            decreases providers.len() - k,
        {
            if str_eq(providers[k].as_str(), prefix.as_str()) {
                assert(names[k as int] == prefix@);
                return Ok(());
            }
            k = k + 1;
        }
        assert(!names.contains(prefix@));
    }
    let mut ids: Vec<String> = Vec::new();
    let mut i: usize = 0;
    while i < models.len()
        invariant
            i <= models@.len(),
            ids@.map_values(|s: String| s@) == ids_named(models@.take(i as int), t@),
        decreases models.len() - i,
    {
        assert(models@.take(i as int + 1).drop_last() =~= models@.take(i as int));
        assert(models@.take(i as int + 1).last() == models@[i as int]);
        if str_eq(models[i].0.as_str(), t) {
            let ghost before = ids@;
            ids.push(models[i].1.clone());
            assert(ids@.map_values(|s: String| s@) =~= before.map_values(|s: String| s@).push(models@[i as int].1@));
        }
        i = i + 1;
    }
    assert(models@.take(i as int) =~= models@);
    if ids.len() <= 1 {
        return Ok(());
    }
    let ghost all = ids@.map_values(|s: String| s@);
    let mut list = String::new();
    let mut k: usize = 0;
    while k < ids.len()
        invariant
            all == ids@.map_values(|s: String| s@),
            k <= ids@.len(),
            list@ == joined(all.take(k as int)),
        decreases ids.len() - k,
    {
        assert(all.take(k as int + 1).drop_last() =~= all.take(k as int));
        if k == 0 {
            list = ids[0].clone();
            assert(all.take(1) =~= seq![ids@[0]@]);
        } else {
            let a = concat(list.as_str(), ", ");
            list = concat(a.as_str(), ids[k].as_str());
        }
        k = k + 1;
    }
    assert(all.take(k as int) =~= all);
    let a = concat("model name '", t);
    let b = concat(a.as_str(), "' is ambiguous; use one of: ");
    Err(EngineError::InvalidRequest(concat(b.as_str(), list.as_str())))
}

/// How many predictions may await confirmation at once.
pub const MAX_PENDING_PREDICTIONS: usize = 4096;

/// The predictions awaiting confirmation by the next request of their
/// scope, bounded in number since scopes come from callers.
pub struct PendingPredictions {
    table: PendingTable,
}

impl PendingPredictions {
    /// The prediction of each scope.
    pub closed spec fn spec_map(&self) -> Map<Seq<char>, Capability> {
        pending_table(self.table)
    }

    /// At most [`MAX_PENDING_PREDICTIONS`] predictions are kept.
    pub closed spec fn wf(&self) -> bool {
        self.spec_map().dom().finite() && self.spec_map().dom().len() <= MAX_PENDING_PREDICTIONS
    }

    /// No predictions yet.
    pub fn new() -> (r: Self)
        ensures
            r.wf(),
            r.spec_map() == no_pending(),
    {
        let table = pending_table_new();
        proof {
            assert(pending_table(table).dom() =~= Set::<Seq<char>>::empty());
        }
        PendingPredictions { table }
    }

    /// Confirm the prediction made for `scope` against the capability its
    /// new request asks for: when the request names one, the scope's
    /// prediction is taken out, and the result says whether it was right
    /// (`None` when there was none).
    pub fn confirm(&mut self, scope: &str, requested: Option<Capability>) -> (r: Option<bool>)
        requires
            old(self).wf(),
        ensures
            final(self).wf(),
            requested is None ==> r is None && final(self).spec_map() == old(self).spec_map(),
            requested matches Some(c) ==> final(self).spec_map() == old(self).spec_map().remove(scope@)
                && r == (match old(self).spec_map().get(scope@) {
                Some(p) => Some(p == c),
                None => None,
            }),
    {
        let c = match requested {
            Some(c) => c,
            None => return None,
        };
        let removed = pending_table_remove(&mut self.table, scope);
        proof {
            let m = pending_table(self.table);
            assert(m.dom() =~= old(self).spec_map().dom().remove(scope@));
            vstd::set_lib::lemma_len_subset(m.dom(), old(self).spec_map().dom());
        }
        match removed {
            Some(p) => Some(p == c),
            None => None,
        }
    }

    /// Remember the prediction for `scope`. When the table is full and the
    /// scope is new, some other scope's prediction makes room.
    pub fn remember(&mut self, scope: String, capability: Capability)
        requires
            old(self).wf(),
        ensures
            final(self).wf(),
            final(self).spec_map().contains_key(scope@),
            final(self).spec_map()[scope@] == capability,
            old(self).spec_map().dom().len() < MAX_PENDING_PREDICTIONS || old(self).spec_map().contains_key(
                scope@,
            ) ==> final(self).spec_map() == old(self).spec_map().insert(scope@, capability),
            !(old(self).spec_map().dom().len() < MAX_PENDING_PREDICTIONS || old(self).spec_map().contains_key(
                scope@,
            )) ==> exists|victim: Seq<char>|
                old(self).spec_map().contains_key(victim) && victim != scope@ && final(self).spec_map()
                    == old(self).spec_map().remove(victim).insert(scope@, capability),
    {
        let len = pending_table_len(&self.table);
        if len >= MAX_PENDING_PREDICTIONS && !pending_table_contains(&self.table, scope.as_str()) {
            match pending_table_some_key(&self.table) {
                Some(victim) => {
                    let ghost v = victim@;
                    pending_table_remove(&mut self.table, victim.as_str());
                    proof {
                        assert(pending_table(self.table).dom() =~= old(self).spec_map().dom().remove(v));
                    }
                },
                None => {},
            }
        }
        let ghost before = pending_table(self.table);
        pending_table_insert(&mut self.table, scope, capability);
        proof {
            assert(pending_table(self.table).dom() =~= before.dom().insert(scope@));
        }
    }
}

/// Whether a card serves `cap`.
pub open spec fn card_serves(c: ModelCard, cap: Capability) -> bool {
    c.capabilities@.contains(cap)
}

/// Whether some model serving `cap` is resident (or remote, where nothing
/// needs loading).
pub open spec fn resident_for(cards: Seq<ModelCard>, cap: Capability) -> bool {
    exists|i: int|
        0 <= i < cards.len() && card_serves(#[trigger] cards[i], cap) && (cards[i].residency
            == ModelResidency::Loaded || cards[i].residency == ModelResidency::Remote)
}

/// Whether some model serving `cap` is resident or remote.
pub fn has_resident_for(cards: &Vec<ModelCard>, cap: Capability) -> (r: bool)
    ensures
        r == resident_for(cards@, cap),
{
    let mut i: usize = 0;
    while i < cards.len()
        invariant
            i <= cards@.len(),
            forall|k: int|
                0 <= k < i ==> !(card_serves(#[trigger] cards@[k], cap) && (cards@[k].residency
                    == ModelResidency::Loaded || cards@[k].residency == ModelResidency::Remote)),
        decreases cards.len() - i,
    {
        let c = &cards[i];
        let resident = match c.residency {
            ModelResidency::Loaded | ModelResidency::Remote => true,
            _ => false,
        };
        if resident {
            let mut j: usize = 0;
            while j < c.capabilities.len()
                invariant
                    i < cards@.len(),
                    *c == cards@[i as int],
                    c.residency == ModelResidency::Loaded || c.residency == ModelResidency::Remote,
                    j <= c.capabilities@.len(),
                    forall|k: int| 0 <= k < j ==> c.capabilities@[k] != cap,
                decreases c.capabilities.len() - j,
            {
                if c.capabilities[j] == cap {
                    assert(c.capabilities@[j as int] == cap);
                    assert(card_serves(cards@[i as int], cap));
                    return true;
                }
                j = j + 1;
            }
            assert(!c.capabilities@.contains(cap));
        }
        i = i + 1;
    }
    false
}

/// The subscribed capability to warm: of those with no resident model, the
/// one whose name comes first (so warming is reproducible); none when
/// every subscribed capability has one.
pub fn first_subscribed_without_resident(subscribed: &Vec<Capability>, cards: &Vec<ModelCard>) -> (r: Option<
    Capability,
>)
    ensures
        r is None <==> forall|i: int| 0 <= i < subscribed@.len() ==> resident_for(cards@, #[trigger] subscribed@[i]),
        r matches Some(c) ==> subscribed@.contains(c) && !resident_for(cards@, c) && forall|i: int|
            0 <= i < subscribed@.len() && !resident_for(cards@, #[trigger] subscribed@[i]) ==> !chars_lt(
                capability_name(subscribed@[i]),
                capability_name(c),
            ),
{
    let mut best: Option<Capability> = None;
    let mut i: usize = 0;
    while i < subscribed.len()
        invariant
            i <= subscribed@.len(),
            best is None <==> forall|k: int| 0 <= k < i ==> resident_for(cards@, #[trigger] subscribed@[k]),
            best matches Some(b) ==> subscribed@.contains(b) && !resident_for(cards@, b) && forall|k: int|
                0 <= k < i && !resident_for(cards@, #[trigger] subscribed@[k]) ==> !chars_lt(
                    capability_name(subscribed@[k]),
                    capability_name(b),
                ),
        decreases subscribed.len() - i,
    {
        let c = subscribed[i];
        if !has_resident_for(cards, c) {
            let replace = match best {
                None => true,
                Some(b) => str_lt(c.as_str(), b.as_str()),
            };
            if replace {
                proof {
                    if let Some(b) = best {
                        assert forall|k: int|
                            0 <= k < i + 1 && !resident_for(cards@, #[trigger] subscribed@[k]) implies !chars_lt(
                            capability_name(subscribed@[k]),
                            capability_name(c),
                        ) by {
                            if k < i && chars_lt(capability_name(subscribed@[k]), capability_name(c)) {
                                lemma_chars_lt_trans(
                                    capability_name(subscribed@[k]),
                                    capability_name(c),
                                    capability_name(b),
                                );
                            }
                            if k == i {
                                lemma_chars_lt_irrefl(capability_name(c));
                            }
                        }
                    } else {
                        assert forall|k: int|
                            0 <= k < i + 1 && !resident_for(cards@, #[trigger] subscribed@[k]) implies !chars_lt(
                            capability_name(subscribed@[k]),
                            capability_name(c),
                        ) by {
                            if k == i {
                                lemma_chars_lt_irrefl(capability_name(c));
                            }
                        }
                    }
                    assert(subscribed@[i as int] == c);
                }
                best = Some(c);
            }
        }
        i = i + 1;
    }
    best
}

/// Where a speculative warm comes from.
#[derive(Debug, Clone, Copy, PartialEq, Eq, Structural)]
pub enum WarmSource {
    Hint,
    Subscription,
    History,
}

impl WarmSource {
    /// The source's name in events and logs.
    pub fn as_str(&self) -> (r: &'static str)
        ensures
            *self == WarmSource::Hint ==> r@ == "hint"@,
            *self == WarmSource::Subscription ==> r@ == "subscription"@,
            *self == WarmSource::History ==> r@ == "history"@,
    {
        match self {
            WarmSource::Hint => "hint",
            WarmSource::Subscription => "subscription",
            WarmSource::History => "history",
        }
    }
}

/// The next step of choosing a capability to warm.
#[derive(Debug, Clone, Copy, PartialEq, Eq, Structural)]
pub enum WarmStep {
    /// Warm this capability, for this reason.
    Warm(Capability, WarmSource),
    /// Neither a hint nor a subscription applies: consult learned history.
    ConsultHistory,
}

/// The first steps of choosing what to warm, in priority order: a hint that
/// names a capability, then a subscribed capability without a resident
/// model; otherwise learned history decides.
pub fn warm_step(hint: Option<&str>, subscription_pick: Option<Capability>) -> (r: WarmStep)
    ensures
        ({
            let h = match hint {
                Some(t) => crate::catalog::capability_named(t@),
                None => None,
            };
            match h {
                Some(c) => r == WarmStep::Warm(c, WarmSource::Hint),
                None => match subscription_pick {
                    Some(c) => r == WarmStep::Warm(c, WarmSource::Subscription),
                    None => r == WarmStep::ConsultHistory,
                },
            }
        }),
{
    let h = match hint {
        Some(t) => Capability::from_str_loose(t),
        None => None,
    };
    match h {
        Some(c) => WarmStep::Warm(c, WarmSource::Hint),
        None => match subscription_pick {
            Some(c) => WarmStep::Warm(c, WarmSource::Subscription),
            None => WarmStep::ConsultHistory,
        },
    }
}

/// Whether a model may not be evicted now: its load is in flight, or it is
/// resident and serves a subscribed capability.
pub open spec fn is_protected(c: ModelCard, subscribed: Seq<Capability>) -> bool {
    c.residency == ModelResidency::Loading || (c.residency == ModelResidency::Loaded && exists|k: int|
        0 <= k < c.capabilities@.len() && subscribed.contains(#[trigger] c.capabilities@[k]))
}

/// The ids of the protected models, in order.
pub open spec fn protected_of(cards: Seq<ModelCard>, subscribed: Seq<Capability>) -> Seq<Seq<char>>
    decreases cards.len(),
{
    if cards.len() == 0 {
        seq![]
    } else {
        let prev = protected_of(cards.drop_last(), subscribed);
        if is_protected(cards.last(), subscribed) {
            prev.push(cards.last().id@)
        } else {
            prev
        }
    }
}

fn contains_cap(v: &Vec<Capability>, c: Capability) -> (r: bool)
    ensures
        r == v@.contains(c),
{
    let mut i: usize = 0;
    while i < v.len()
        invariant
            i <= v@.len(),
            forall|k: int| 0 <= k < i ==> v@[k] != c,
        decreases v.len() - i,
    {
        if v[i] == c {
            return true;
        }
        i = i + 1;
    }
    false
}

/// The ids of the models eviction must spare (see [`is_protected`]).
pub fn eviction_protected_ids(cards: &Vec<ModelCard>, subscribed: &Vec<Capability>) -> (r: Vec<String>)
    ensures
        r@.map_values(|s: String| s@) == protected_of(cards@, subscribed@),
{
    let mut out: Vec<String> = Vec::new();
    let mut i: usize = 0;
    while i < cards.len()
        invariant
            i <= cards@.len(),
            out@.map_values(|s: String| s@) == protected_of(cards@.take(i as int), subscribed@),
        decreases cards.len() - i,
    {
        assert(cards@.take(i as int + 1).drop_last() =~= cards@.take(i as int));
        let c = &cards[i];
        let protected = match c.residency {
            ModelResidency::Loading => true,
            ModelResidency::Loaded => {
                let mut found = false;
                let mut j: usize = 0;
                while j < c.capabilities.len()
                    invariant
                        j <= c.capabilities@.len(),
                        found == exists|k: int|
                            0 <= k < j && subscribed@.contains(#[trigger] c.capabilities@[k]),
                    decreases c.capabilities.len() - j,
                {
                    if contains_cap(subscribed, c.capabilities[j]) {
                        found = true;
                    }
                    j = j + 1;
                }
                found
            },
            _ => false,
        };
        assert(protected == is_protected(cards@[i as int], subscribed@));
        if protected {
            out.push(owned(c.id.as_str()));
        }
        assert(out@.map_values(|s: String| s@) =~= protected_of(cards@.take(i as int + 1), subscribed@));
        i = i + 1;
    }
    assert(cards@.take(cards@.len() as int) =~= cards@);
    out
}

/// Whether a request's input file must be resolved before it may run: an
/// allowlist is configured and the request names a file.
pub fn needs_input_check(roots: &Vec<String>, input_file: Option<&str>) -> (r: bool)
    ensures
        r == (roots@.len() > 0 && input_file is Some),
{
    roots.len() > 0 && input_file.is_some()
}

/// The allowlist check of an input file `path` that resolved to `resolved`
/// (`None` when it could not be resolved): allowed when it lies under one of
/// `roots`, counted in whole path components.
pub fn check_input_path(roots: &Vec<String>, path: &str, resolved: Option<&str>) -> (r: Result<(), EngineError>)
    ensures
        resolved is None ==> (r matches Err(EngineError::InvalidRequest(m)) && m@ == "input_file '"@ + path@
            + "' cannot be resolved"@),
        resolved matches Some(c) ==> ((exists|i: int| 0 <= i < roots@.len() && component_prefix(c@, #[trigger] roots@[i]@)) ==> r is Ok),
        resolved matches Some(c) ==> (!(exists|i: int| 0 <= i < roots@.len() && component_prefix(c@, #[trigger] roots@[i]@)) ==> (
        r matches Err(EngineError::InvalidRequest(m)) && m@ == "input_file '"@ + path@
            + "' is outside the allowed roots"@)),
{
    let canonical = match resolved {
        Some(c) => c,
        None => {
            let a = concat("input_file '", path);
            return Err(EngineError::InvalidRequest(concat(a.as_str(), "' cannot be resolved")));
        },
    };
    let mut i: usize = 0;
    while i < roots.len()
        invariant
            i <= roots@.len(),
            resolved == Some(canonical),
            forall|k: int| 0 <= k < i ==> !component_prefix(canonical@, #[trigger] roots@[k]@),
        decreases roots.len() - i,
    {
        if path_starts_with(canonical, roots[i].as_str()) {
            assert(component_prefix(canonical@, roots@[i as int]@));
            return Ok(());
        }
        i = i + 1;
    }
    let a = concat("input_file '", path);
    Err(EngineError::InvalidRequest(concat(a.as_str(), "' is outside the allowed roots")))
}

} // verus!
