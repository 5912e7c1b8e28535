//! Model selection and next-type prediction.
//!
//! A request names a model or a model type. By name, the first model whose
//! name matches without regard to ASCII case is chosen. By type, among the
//! models of that type the first already loaded wins, then the first on a
//! local backend, then the first of all.

use vstd::prelude::*;

use crate::kernel::{
    is_local_backend, model_type_name, model_views, BackendType, EngineError, ModelInfo,
    ModelInfoView, ModelStatus, ModelType, PrefetchHint, Scheduler,
};
use crate::shared_map::{
    follower_table, follower_table_get, follower_table_new, no_followers, no_subscriptions,
    subscription_table, subscription_table_insert, subscription_table_new, FollowerTable,
    SubscriptionTable,
};
use crate::text::{concat, eq_ignore_ascii_case, owned, same_ignoring_ascii_case};

verus! {

/// Whether `i` is the first index of `models` whose entry satisfies `p`.
pub open spec fn is_first_where(
    models: Seq<ModelInfoView>,
    p: spec_fn(ModelInfoView) -> bool,
    i: int,
) -> bool {
    &&& 0 <= i < models.len()
    &&& p(models[i])
    &&& forall|j: int| 0 <= j < i ==> !p(#[trigger] models[j])
}

/// The first index of `models` whose entry satisfies `p`, if any.
pub open spec fn first_where(models: Seq<ModelInfoView>, p: spec_fn(ModelInfoView) -> bool) -> Option<
    int,
> {
    if exists|i: int| is_first_where(models, p, i) {
        Some(choose|i: int| is_first_where(models, p, i))
    } else {
        None
    }
}

/// Models whose name matches `name` up to ASCII case.
pub open spec fn named(name: Seq<char>) -> spec_fn(ModelInfoView) -> bool {
    |m: ModelInfoView| same_ignoring_ascii_case(m.name, name)
}

/// Models of type `t`.
pub open spec fn of_type(t: ModelType) -> spec_fn(ModelInfoView) -> bool {
    |m: ModelInfoView| m.model_type == t
}

/// Loaded models of type `t`.
pub open spec fn loaded_of_type(t: ModelType) -> spec_fn(ModelInfoView) -> bool {
    |m: ModelInfoView| m.model_type == t && m.status == ModelStatus::Loaded
}

/// Models of type `t` on a local backend.
pub open spec fn local_of_type(t: ModelType) -> spec_fn(ModelInfoView) -> bool {
    |m: ModelInfoView| m.model_type == t && is_local_backend(m.backend)
}

/// The outcome of a selection: the index of the chosen model, or why none was.
pub enum Selection {
    Model(int),
    UnknownName,
    NoModelOfType,
    NoCriterion,
}

/// The model a request by `name` (which takes precedence) or by type `t`
/// selects among `models`.
pub open spec fn selection(
    t: Option<ModelType>,
    name: Option<Seq<char>>,
    models: Seq<ModelInfoView>,
) -> Selection {
    match name {
        Some(n) => match first_where(models, named(n)) {
            Some(i) => Selection::Model(i),
            None => Selection::UnknownName,
        },
        None => match t {
            Some(mt) => match first_where(models, of_type(mt)) {
                None => Selection::NoModelOfType,
                Some(any) => match first_where(models, loaded_of_type(mt)) {
                    Some(i) => Selection::Model(i),
                    None => match first_where(models, local_of_type(mt)) {
                        Some(i) => Selection::Model(i),
                        None => Selection::Model(any),
                    },
                },
            },
            None => Selection::NoCriterion,
        },
    }
}

/// The characters of an optional string.
pub open spec fn opt_chars(s: Option<&str>) -> Option<Seq<char>> {
    match s {
        Some(v) => Some(v@),
        None => None,
    }
}

/// Whether `r` is what [`selection`] prescribes for the request.
pub open spec fn selected(
    r: Result<String, EngineError>,
    t: Option<ModelType>,
    name: Option<&str>,
    models: Seq<ModelInfo>,
) -> bool {
    match selection(t, opt_chars(name), model_views(models)) {
        Selection::Model(i) => r matches Ok(id) && id@ == models[i].id@,
        Selection::UnknownName => r matches Err(EngineError::ModelNotFound(m)) && m@
            == opt_chars(name).unwrap(),
        Selection::NoModelOfType => r matches Err(EngineError::ModelNotFound(m)) && m@
            == "no model for type "@ + model_type_name(t.unwrap()),
        Selection::NoCriterion => r matches Err(EngineError::InvalidInput(m)) && m@
            == "must specify model type or model name"@,
    }
}

/// How often `x` occurs in `s`.
pub open spec fn occurrences(s: Seq<ModelType>, x: ModelType) -> nat
    decreases s.len(),
{
    if s.len() == 0 {
        0
    } else {
        occurrences(s.drop_last(), x) + if s.last() == x {
            1nat
        } else {
            0nat
        }
    }
}

/// Whether `x` is a most frequent element of `s`.
pub open spec fn is_most_frequent(s: Seq<ModelType>, x: ModelType) -> bool {
    s.contains(x) && forall|y: ModelType| occurrences(s, y) <= occurrences(s, x)
}

/// Scheduler that picks models for requests and predicts the next model type.
pub struct SmartScheduler {
    history: FollowerTable,
    subscriptions: SubscriptionTable,
}

impl SmartScheduler {
    /// The types observed to follow each type.
    pub closed spec fn followers(&self) -> Map<ModelType, Seq<ModelType>> {
        follower_table(self.history)
    }

    /// The types each application subscribed to.
    pub closed spec fn subscribed(&self) -> Map<Seq<char>, Seq<ModelType>> {
        subscription_table(self.subscriptions)
    }

    /// A scheduler with no history and no subscriptions.
    pub fn new() -> (r: Self)
        ensures
            r.followers() == no_followers(),
            r.subscribed() == no_subscriptions(),
    {
        SmartScheduler { history: follower_table_new(), subscriptions: subscription_table_new() }
    }

    /// Record that application `app_id` uses the model types `types`.
    pub fn subscribe(&mut self, app_id: &str, types: Vec<ModelType>)
        ensures
            final(self).followers() == old(self).followers(),
            final(self).subscribed() == old(self).subscribed().insert(app_id@, types@),
    {
        subscription_table_insert(&mut self.subscriptions, owned(app_id), types);
    }

    /// The type that most often followed `current_type`, if any did (among
    /// equally frequent ones, the first seen).
    pub fn predict_next(&self, current_type: ModelType) -> (r: Option<ModelType>)
        ensures
            r is None <==> !self.followers().contains_key(current_type) || self.followers()[current_type].len() == 0,
            r matches Some(x) ==> is_most_frequent(self.followers()[current_type], x),
    {
        match follower_table_get(&self.history, current_type) {
            None => None,
            Some(followers) => most_frequent(&followers),
        }
    }

    /// The id of the model that serves a request for `model_name` or, when
    /// no name is given, for `model_type`.
    pub fn select_model(
        &self,
        model_type: Option<ModelType>,
        model_name: Option<&str>,
        available: &[ModelInfo],
    ) -> (r: Result<String, EngineError>)
        ensures
            selected(r, model_type, model_name, available@),
            model_name is None && model_type is Some && local_choice_open(model_type.unwrap(), available@) ==> (r is Ok
                && serves_locally(r->Ok_0@, model_type.unwrap(), available@)),
    {
        proof {
            lemma_local_preference(model_type, model_name, available@);
        }
        let ghost models = model_views(available@);
        if let Some(name) = model_name {
            let mut i: usize = 0;
            while i < available.len()
                invariant
                    models == model_views(available@),
                    model_name == Some(name),
                    i <= available@.len(),
                    forall|j: int| 0 <= j < i ==> !(#[trigger] named(name@)(models[j])),
                decreases available.len() - i,
            {
                if eq_ignore_ascii_case(available[i].name.as_str(), name) {
                    proof {
                        lemma_first_is(models, named(name@), i as int);
                    }
                    return Ok(available[i].id.clone());
                }
                i = i + 1;
            }
            proof {
                lemma_none_first(models, named(name@));
            }
            return Err(EngineError::ModelNotFound(owned(name)));
        }
        if let Some(mt) = model_type {
            let any = first_of_type(available, mt);
            match any {
                None => {
                    return Err(EngineError::ModelNotFound(concat("no model for type ", mt.as_str())));
                },
                Some(a) => {
                    let mut i: usize = 0;
                    while i < available.len()
                        invariant
                            models == model_views(available@),
                            model_name is None,
                            model_type == Some(mt),
                            first_where(models, of_type(mt)) == Some(a as int),
                            i <= available@.len(),
                            forall|j: int| 0 <= j < i ==> !(#[trigger] loaded_of_type(mt)(models[j])),
                        decreases available.len() - i,
                    {
                        if available[i].model_type == mt && available[i].status == ModelStatus::Loaded {
                            proof {
                                lemma_first_is(models, loaded_of_type(mt), i as int);
                            }
                            return Ok(available[i].id.clone());
                        }
                        i = i + 1;
                    }
                    proof {
                        lemma_none_first(models, loaded_of_type(mt));
                    }
                    let mut k: usize = 0;
                    while k < available.len()
                        invariant
                            models == model_views(available@),
                            model_name is None,
                            model_type == Some(mt),
                            first_where(models, of_type(mt)) == Some(a as int),
                            first_where(models, loaded_of_type(mt)) is None,
                            k <= available@.len(),
                            forall|j: int| 0 <= j < k ==> !(#[trigger] local_of_type(mt)(models[j])),
                        decreases available.len() - k,
                    {
                        if available[k].model_type == mt && available[k].backend.is_local() {
                            proof {
                                lemma_first_is(models, local_of_type(mt), k as int);
                            }
                            return Ok(available[k].id.clone());
                        }
                        k = k + 1;
                    }
                    proof {
                        lemma_none_first(models, local_of_type(mt));
                    }
                    return Ok(available[a].id.clone());
                },
            }
        }
        Err(EngineError::InvalidInput(owned("must specify model type or model name")))
    }
}

impl Scheduler for SmartScheduler {
    fn select_model(
        &self,
        model_type: Option<ModelType>,
        model_name: Option<&str>,
        available: &[ModelInfo],
    ) -> (r: Result<String, EngineError>)
        ensures
            selected(r, model_type, model_name, available@),
            model_name is None && model_type is Some && local_choice_open(model_type.unwrap(), available@) ==> (r is Ok
                && serves_locally(r->Ok_0@, model_type.unwrap(), available@)),
    {
        SmartScheduler::select_model(self, model_type, model_name, available)
    }

    /// Hints are acted on by the engine, which owns the preloading.
    fn on_hint(&self, _hint: &PrefetchHint) {
    }

    /// Completed runs leave the scheduler unchanged.
    fn on_run_complete(&self, _model_type: ModelType, _model_id: &str) {
    }
}

/// The index of the first model of type `t`, if any.
fn first_of_type(available: &[ModelInfo], t: ModelType) -> (r: Option<usize>)
    ensures
        r matches Some(i) ==> first_where(model_views(available@), of_type(t)) == Some(i as int),
        r is None ==> first_where(model_views(available@), of_type(t)) is None,
{
    let ghost models = model_views(available@);
    let mut i: usize = 0;
    while i < available.len()
        invariant
            models == model_views(available@),
            i <= available@.len(),
            forall|j: int| 0 <= j < i ==> !(#[trigger] of_type(t)(models[j])),
        decreases available.len() - i,
    {
        if available[i].model_type == t {
            proof {
                lemma_first_is(models, of_type(t), i as int);
            }
            return Some(i);
        }
        i = i + 1;
    }
    proof {
        lemma_none_first(models, of_type(t));
    }
    None
}

/// A first index is the first index.
proof fn lemma_first_is(models: Seq<ModelInfoView>, p: spec_fn(ModelInfoView) -> bool, i: int)
    requires
        0 <= i < models.len(),
        p(models[i]),
        forall|j: int| 0 <= j < i ==> !(#[trigger] p(models[j])),
    ensures
        first_where(models, p) == Some(i),
{
    assert(is_first_where(models, p, i));
    let k = choose|k: int| is_first_where(models, p, k);
    if k < i {
        assert(!p(models[k]));
    }
    if k > i {
        assert(!p(models[i]));
    }
}

/// With no entry satisfying `p`, there is no first one.
proof fn lemma_none_first(models: Seq<ModelInfoView>, p: spec_fn(ModelInfoView) -> bool)
    requires
        forall|j: int| 0 <= j < models.len() ==> !(#[trigger] p(models[j])),
    ensures
        first_where(models, p) is None,
{
    if exists|i: int| is_first_where(models, p, i) {
        let k = choose|k: int| is_first_where(models, p, k);
        assert(p(models[k]));
    }
}

/// How often `x` occurs in `s`.
fn count_of(s: &Vec<ModelType>, x: ModelType) -> (r: usize)
    ensures
        r == occurrences(s@, x),
{
    let mut c: usize = 0;
    let mut i: usize = 0;
    while i < s.len()
        invariant
            i <= s@.len(),
            c == occurrences(s@.take(i as int), x),
            c <= i,
        decreases s.len() - i,
    {
        assert(s@.take(i as int + 1).drop_last() =~= s@.take(i as int));
        if s[i] == x {
            c = c + 1;
        }
        i = i + 1;
    }
    assert(s@.take(i as int) =~= s@);
    c
}

/// A most frequent element of `s` (the first one seen among ties), or `None`
/// when `s` is empty.
fn most_frequent(s: &Vec<ModelType>) -> (r: Option<ModelType>)
    ensures
        r is None <==> s@.len() == 0,
        r matches Some(x) ==> is_most_frequent(s@, x),
{
    if s.len() == 0 {
        return None;
    }
    let mut best: usize = 0;
    let mut best_count = count_of(s, s[0]);
    let mut j: usize = 1;
    while j < s.len()
        invariant
            0 < s@.len(),
            best < s@.len(),
            j <= s@.len(),
            best_count == occurrences(s@, s@[best as int]),
            forall|k: int| 0 <= k < j ==> occurrences(s@, #[trigger] s@[k]) <= best_count,
        decreases s.len() - j,
    {
        let c = count_of(s, s[j]);
        if c > best_count {
            best = j;
            best_count = c;
        }
        j = j + 1;
    }
    proof {
        assert forall|y: ModelType| occurrences(s@, y) <= best_count by {
            if occurrences(s@, y) > 0 {
                lemma_occurs_somewhere(s@, y);
                let k = choose|k: int| 0 <= k < s@.len() && s@[k] == y;
                assert(occurrences(s@, s@[k]) <= best_count);
            }
        }
        assert(s@.contains(s@[best as int]));
    }
    Some(s[best])
}

/// An element that occurs stands at some index.
proof fn lemma_occurs_somewhere(s: Seq<ModelType>, y: ModelType)
    requires
        occurrences(s, y) > 0,
    ensures
        exists|k: int| 0 <= k < s.len() && s[k] == y,
    decreases s.len(),
{
    if s.last() == y {
        assert(s[s.len() - 1] == y);
    } else {
        lemma_occurs_somewhere(s.drop_last(), y);
        let k = choose|k: int| 0 <= k < s.drop_last().len() && s.drop_last()[k] == y;
        assert(s[k] == y);
    }
}

/// A request by name selects a model whose name matches it up to ASCII case.
pub proof fn law_named_selection_matches(t: Option<ModelType>, name: Seq<char>, models: Seq<ModelInfoView>)
    ensures
        selection(t, Some(name), models) matches Selection::Model(i) ==> (0 <= i < models.len()
            && same_ignoring_ascii_case(models[i].name, name)),
{
    if exists|i: int| is_first_where(models, named(name), i) {
        let k = choose|i: int| is_first_where(models, named(name), i);
        assert(named(name)(models[k]));
    }
}

/// A request by type alone selects a model of that type, loaded if any is,
/// else local if any is.
pub proof fn law_typed_selection_has_type(t: ModelType, models: Seq<ModelInfoView>)
    ensures
        selection(Some(t), None, models) matches Selection::Model(i) ==> (0 <= i < models.len()
            && models[i].model_type == t),
        (exists|j: int| 0 <= j < models.len() && #[trigger] loaded_of_type(t)(models[j]))
            ==> (selection(Some(t), None, models) matches Selection::Model(i) && models[i].status
            == ModelStatus::Loaded),
{
    if exists|i: int| is_first_where(models, of_type(t), i) {
        let a = choose|i: int| is_first_where(models, of_type(t), i);
        assert(of_type(t)(models[a]));
    }
    if exists|i: int| is_first_where(models, loaded_of_type(t), i) {
        let l = choose|i: int| is_first_where(models, loaded_of_type(t), i);
        assert(loaded_of_type(t)(models[l]));
        assert(of_type(t)(models[l]));
        lemma_some_first(models, of_type(t), l);
    }
    if exists|i: int| is_first_where(models, local_of_type(t), i) {
        let l = choose|i: int| is_first_where(models, local_of_type(t), i);
        assert(local_of_type(t)(models[l]));
    }
    if exists|j: int| 0 <= j < models.len() && #[trigger] loaded_of_type(t)(models[j]) {
        let j = choose|j: int| 0 <= j < models.len() && #[trigger] loaded_of_type(t)(models[j]);
        lemma_some_first(models, loaded_of_type(t), j);
        assert(of_type(t)(models[j]));
        lemma_some_first(models, of_type(t), j);
    }
}

/// Law: with nothing of the requested type loaded, a local model is
/// preferred. When no model of type `t` is loaded and some model of type `t`
/// runs on a backend other than the OpenAI API (Ollama, MLX, CUDA or ONNX on
/// the CPU), a request by type selects a model of type `t` that runs on such
/// a backend.
pub proof fn law_typed_selection_prefers_local(t: ModelType, models: Seq<ModelInfoView>)
    requires
        forall|j: int| 0 <= j < models.len() ==> !(#[trigger] models[j].model_type == t && models[j].status == ModelStatus::Loaded),
        exists|j: int| 0 <= j < models.len() && #[trigger] models[j].model_type == t && models[j].backend != BackendType::OpenAi,
    ensures
        selection(Some(t), None, models) matches Selection::Model(i) && 0 <= i < models.len() && models[i].model_type == t
            && models[i].backend != BackendType::OpenAi,
{
    let j = choose|j: int| 0 <= j < models.len() && #[trigger] models[j].model_type == t && models[j].backend != BackendType::OpenAi;
    assert(local_of_type(t)(models[j]));
    lemma_some_first(models, local_of_type(t), j);
    assert(of_type(t)(models[j]));
    lemma_some_first(models, of_type(t), j);
    assert forall|k: int| 0 <= k < models.len() implies !(#[trigger] loaded_of_type(t)(models[k])) by {
        assert(!(models[k].model_type == t && models[k].status == ModelStatus::Loaded));
    }
    lemma_none_first(models, loaded_of_type(t));
    let l = choose|i: int| is_first_where(models, local_of_type(t), i);
    assert(local_of_type(t)(models[l]));
    let a = choose|i: int| is_first_where(models, of_type(t), i);
    assert(of_type(t)(models[a]));
}

/// No model of type `t` is loaded, and some model of type `t` runs on a
/// backend other than the OpenAI API.
pub open spec fn local_choice_open(t: ModelType, available: Seq<ModelInfo>) -> bool {
    &&& forall|j: int| 0 <= j < available.len() ==> !(#[trigger] available[j].model_type == t && available[j].status
        == ModelStatus::Loaded)
    &&& exists|j: int| 0 <= j < available.len() && #[trigger] available[j].model_type == t && available[j].backend
        != BackendType::OpenAi
}

/// `id` is the id of a model of type `t` that runs on a backend other than
/// the OpenAI API.
pub open spec fn serves_locally(id: Seq<char>, t: ModelType, available: Seq<ModelInfo>) -> bool {
    exists|i: int| 0 <= i < available.len() && #[trigger] available[i].id@ == id && available[i].model_type == t
        && available[i].backend != BackendType::OpenAi
}

/// The local preference of [`law_typed_selection_prefers_local`] read on
/// the models themselves.
proof fn lemma_local_preference(model_type: Option<ModelType>, model_name: Option<&str>, available: Seq<ModelInfo>)
    ensures
        model_name is None && model_type is Some && local_choice_open(model_type.unwrap(), available) ==> (selection(
            model_type,
            opt_chars(model_name),
            model_views(available),
        ) matches Selection::Model(i) && 0 <= i < available.len() && available[i].model_type == model_type.unwrap()
            && available[i].backend != BackendType::OpenAi),
{
    if model_name is None && model_type is Some && local_choice_open(model_type.unwrap(), available) {
        let t = model_type.unwrap();
        let models = model_views(available);
        assert forall|j: int| 0 <= j < models.len() implies !(#[trigger] models[j].model_type == t && models[j].status
            == ModelStatus::Loaded) by {
            assert(models[j] == available[j]@);
        }
        let j = choose|j: int| 0 <= j < available.len() && #[trigger] available[j].model_type == t && available[j].backend
            != BackendType::OpenAi;
        assert(models[j] == available[j]@);
        assert(models[j].model_type == t && models[j].backend != BackendType::OpenAi);
        law_typed_selection_prefers_local(t, models);
        let i = choose|i: int| selection(Some(t), None, models) == Selection::Model(i);
        assert(models[i] == available[i]@);
    }
}

/// When some entry satisfies `p`, a first one exists.
proof fn lemma_some_first(models: Seq<ModelInfoView>, p: spec_fn(ModelInfoView) -> bool, j: int)
    requires
        0 <= j < models.len(),
        p(models[j]),
    ensures
        exists|i: int| is_first_where(models, p, i),
    decreases j,
{
    if forall|k: int| 0 <= k < j ==> !(#[trigger] p(models[k])) {
        assert(is_first_where(models, p, j));
    } else {
        let k = choose|k: int| 0 <= k < j && #[trigger] p(models[k]);
        lemma_some_first(models, p, k);
    }
}

} // verus!
