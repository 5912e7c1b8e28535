//! History-based preloading: counts of which model type followed which, and
//! the prediction of the next type once a transition has been seen often
//! enough.

use vstd::prelude::*;

use crate::kernel::ModelType;
use crate::shared_map::{
    no_transitions, transition_table, transition_table_get, transition_table_insert,
    transition_table_new, TransitionTable,
};

verus! {

/// Whether no model type is listed twice.
pub open spec fn distinct_targets(entries: Seq<(ModelType, usize)>) -> bool {
    forall|i: int, j: int| 0 <= i < j < entries.len() ==> entries[i].0 != entries[j].0
}

/// The count recorded towards `to` in `entries` (zero when none is).
pub open spec fn count_towards(entries: Seq<(ModelType, usize)>, to: ModelType) -> nat {
    if exists|i: int| 0 <= i < entries.len() && entries[i].0 == to {
        entries[choose|i: int| 0 <= i < entries.len() && entries[i].0 == to].1 as nat
    } else {
        0
    }
}

/// The fewest observations of a transition before it is predicted.
pub const MIN_OBSERVATIONS: usize = 3;

/// Counts of observed transitions between model types.
pub struct PreflightManager {
    transition_counts: TransitionTable,
    min_observations: usize,
}

impl PreflightManager {
    /// How often `to` was observed right after `from`.
    pub closed spec fn count(&self, from: ModelType, to: ModelType) -> nat {
        let t = transition_table(self.transition_counts);
        if t.contains_key(from) {
            count_towards(t[from], to)
        } else {
            0
        }
    }

    /// The fewest observations before a transition is predicted.
    pub closed spec fn threshold(&self) -> usize {
        self.min_observations
    }

    #[verifier::type_invariant]
    spec fn inv(&self) -> bool {
        &&& self.min_observations == MIN_OBSERVATIONS
        &&& forall|k: ModelType|
            #[trigger] transition_table(self.transition_counts).contains_key(k) ==> distinct_targets(
                transition_table(self.transition_counts)[k],
            )
    }

    /// A manager that has observed nothing and predicts after
    /// [`MIN_OBSERVATIONS`] observations.
    pub fn new() -> (r: Self)
        ensures
            forall|from: ModelType, to: ModelType| #[trigger] r.count(from, to) == 0,
            r.threshold() == MIN_OBSERVATIONS,
    {
        let t = transition_table_new();
        proof {
            assert(transition_table(t) == no_transitions());
        }
        PreflightManager { transition_counts: t, min_observations: MIN_OBSERVATIONS }
    }

    /// How often `to` was observed right after `from`.
    pub fn transition_count(&self, from: ModelType, to: ModelType) -> (r: usize)
        ensures
            r == self.count(from, to),
    {
        proof {
            use_type_invariant(self);
        }
        match transition_table_get(&self.transition_counts, from) {
            None => 0,
            Some(entries) => {
                match position_of(&entries, to) {
                    Some(i) => {
                        proof {
                            lemma_count_at(entries@, to, i as int);
                        }
                        entries[i].1
                    },
                    None => 0,
                }
            },
        }
    }

    /// Record one more observation of `to` following `from`.
    pub fn record_transition(&mut self, from: ModelType, to: ModelType)
        requires
            old(self).count(from, to) < usize::MAX,
        ensures
            final(self).threshold() == old(self).threshold(),
            forall|f: ModelType, t: ModelType|
                #[trigger] final(self).count(f, t) == old(self).count(f, t) + if f == from && t == to {
                    1nat
                } else {
                    0nat
                },
    {
        proof {
            use_type_invariant(&*self);
        }
        let ghost before = transition_table(self.transition_counts);
        let mut entries = match transition_table_get(&self.transition_counts, from) {
            Some(v) => v,
            None => Vec::new(),
        };
        let ghost old_entries = entries@;
        proof {
            assert(distinct_targets(old_entries));
            if !before.contains_key(from) {
                assert(forall|t: ModelType| count_towards(old_entries, t) == 0);
            }
        }
        match position_of(&entries, to) {
            Some(i) => {
                let c = entries[i].1;
                proof {
                    lemma_count_at(old_entries, to, i as int);
                }
                entries.set(i, (to, c + 1));
                proof {
                    assert(distinct_targets(entries@)) by {
                        assert forall|a: int, b: int| 0 <= a < b < entries@.len() implies entries@[a].0
                            != entries@[b].0 by {
                            assert(old_entries[a].0 == entries@[a].0 && old_entries[b].0 == entries@[b].0);
                        }
                    }
                    assert forall|t: ModelType| #[trigger] count_towards(entries@, t) == count_towards(old_entries, t)
                        + if t == to { 1nat } else { 0nat } by {
                        if t == to {
                            lemma_count_at(entries@, t, i as int);
                        } else if exists|j: int| 0 <= j < old_entries.len() && old_entries[j].0 == t {
                            let j = choose|j: int| 0 <= j < old_entries.len() && old_entries[j].0 == t;
                            lemma_count_at(old_entries, t, j);
                            lemma_count_at(entries@, t, j);
                        } else {
                            lemma_count_absent(entries@, t);
                        }
                    }
                }
            },
            None => {
                entries.push((to, 1));
                proof {
                    assert(distinct_targets(entries@)) by {
                        assert forall|a: int, b: int| 0 <= a < b < entries@.len() implies entries@[a].0
                            != entries@[b].0 by {
                            if b < old_entries.len() {
                                assert(old_entries[a].0 == entries@[a].0 && old_entries[b].0 == entries@[b].0);
                            } else {
                                assert(old_entries[a].0 != to);
                            }
                        }
                    }
                    assert forall|t: ModelType| #[trigger] count_towards(entries@, t) == count_towards(old_entries, t)
                        + if t == to { 1nat } else { 0nat } by {
                        if t == to {
                            lemma_count_absent(old_entries, t);
                            lemma_count_at(entries@, t, old_entries.len() as int);
                        } else if exists|j: int| 0 <= j < old_entries.len() && old_entries[j].0 == t {
                            let j = choose|j: int| 0 <= j < old_entries.len() && old_entries[j].0 == t;
                            lemma_count_at(old_entries, t, j);
                            lemma_count_at(entries@, t, j);
                        } else {
                            lemma_count_absent(entries@, t);
                        }
                    }
                }
            },
        }
        transition_table_insert(&mut self.transition_counts, from, entries);
    }

    /// The type most often seen after `current`, among those seen at least
    /// the threshold number of times (among equally frequent ones, the first
    /// recorded).
    pub fn predict_next(&self, current: ModelType) -> (r: Option<ModelType>)
        ensures
            r is Some <==> exists|t: ModelType| #[trigger] self.count(current, t) >= self.threshold(),
            r matches Some(x) ==> self.count(current, x) >= self.threshold() && forall|t: ModelType|
                #[trigger] self.count(current, t) <= self.count(current, x),
    {
        proof {
            use_type_invariant(self);
        }
        let entries = match transition_table_get(&self.transition_counts, current) {
            Some(v) => v,
            None => {
                proof {
                    assert forall|t: ModelType| #[trigger] self.count(current, t) < self.threshold() by {}
                }
                return None;
            },
        };
        let min = self.min_observations;
        let mut best: Option<usize> = None;
        let mut i: usize = 0;
        while i < entries.len()
            invariant
                i <= entries@.len(),
                distinct_targets(entries@),
                best matches Some(b) ==> b < i && entries@[b as int].1 >= min && forall|j: int|
                    0 <= j < i ==> entries@[j].1 <= entries@[b as int].1,
                best is None ==> forall|j: int| 0 <= j < i ==> entries@[j].1 < min,
            decreases entries.len() - i,
        {
            let c = entries[i].1;
            if c >= min {
                match best {
                    Some(b) => {
                        if c > entries[b].1 {
                            best = Some(i);
                        }
                    },
                    None => {
                        best = Some(i);
                    },
                }
            }
            i = i + 1;
        }
        match best {
            Some(b) => {
                proof {
                    lemma_count_at(entries@, entries@[b as int].0, b as int);
                    assert forall|t: ModelType| #[trigger] self.count(current, t) <= self.count(current, entries@[b as int].0) by {
                        if exists|j: int| 0 <= j < entries@.len() && entries@[j].0 == t {
                            let j = choose|j: int| 0 <= j < entries@.len() && entries@[j].0 == t;
                            lemma_count_at(entries@, t, j);
                        } else {
                            lemma_count_absent(entries@, t);
                        }
                    }
                }
                Some(entries[b].0)
            },
            None => {
                proof {
                    assert forall|t: ModelType| #[trigger] self.count(current, t) < self.threshold() by {
                        if exists|j: int| 0 <= j < entries@.len() && entries@[j].0 == t {
                            let j = choose|j: int| 0 <= j < entries@.len() && entries@[j].0 == t;
                            lemma_count_at(entries@, t, j);
                        } else {
                            lemma_count_absent(entries@, t);
                        }
                    }
                }
                None
            },
        }
    }
}

/// The index at which `entries` lists `to`, if it does.
fn position_of(entries: &Vec<(ModelType, usize)>, to: ModelType) -> (r: Option<usize>)
    ensures
        r matches Some(i) ==> i < entries@.len() && entries@[i as int].0 == to,
        r is None ==> forall|j: int| 0 <= j < entries@.len() ==> entries@[j].0 != to,
{
    let mut i: usize = 0;
    while i < entries.len()
        invariant
            i <= entries@.len(),
            forall|j: int| 0 <= j < i ==> entries@[j].0 != to,
        decreases entries.len() - i,
    {
        if entries[i].0 == to {
            return Some(i);
        }
        i = i + 1;
    }
    None
}

/// In a list without repeats, the count towards the type at `i` is its entry.
proof fn lemma_count_at(entries: Seq<(ModelType, usize)>, to: ModelType, i: int)
    requires
        distinct_targets(entries),
        0 <= i < entries.len(),
        entries[i].0 == to,
    ensures
        count_towards(entries, to) == entries[i].1,
{
    let k = choose|k: int| 0 <= k < entries.len() && entries[k].0 == to;
    if k != i {
        if k < i {
            assert(entries[k].0 != entries[i].0);
        } else {
            assert(entries[i].0 != entries[k].0);
        }
    }
}

/// A type that is not listed has count zero.
proof fn lemma_count_absent(entries: Seq<(ModelType, usize)>, to: ModelType)
    requires
        forall|j: int| 0 <= j < entries.len() ==> entries[j].0 != to,
    ensures
        count_towards(entries, to) == 0,
{
}

} // verus!
