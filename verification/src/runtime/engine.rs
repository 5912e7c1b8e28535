//! The decisions of the model-run engine: how a request's type is read, when
//! a model must be loaded first, which models are idle, which can stand in
//! for a failed one, what a hint asks to preload, the status report, and how
//! the HTTP API answers a failed run.

use vstd::prelude::*;

use crate::kernel::{
    is_local_backend, model_views, parsed_model_type, BackendStatus, BackendType, EngineError, EngineStatus,
    ModelInfo, ModelInfoView, ModelStatus, ModelType,
};
use crate::text::owned;

verus! {

/// What a request's model-type field gives: no type, a type, or the message
/// of an unknown one.
pub open spec fn requested_type(t: Option<Seq<char>>) -> Result<Option<ModelType>, Seq<char>> {
    match t {
        None => Ok(None),
        Some(s) => match parsed_model_type(s) {
            Ok(mt) => Ok(Some(mt)),
            Err(m) => Err(m),
        },
    }
}

/// Read a request's model type; an unknown name is invalid input.
pub fn parse_requested_type(model_type: Option<&str>) -> (r: Result<Option<ModelType>, EngineError>)
    ensures
        requested_type(match model_type {
            Some(s) => Some(s@),
            None => None,
        }) matches Ok(o) ==> r == Ok::<Option<ModelType>, EngineError>(o),
        requested_type(match model_type {
            Some(s) => Some(s@),
            None => None,
        }) matches Err(m) ==> (r matches Err(EngineError::InvalidInput(e)) && e@ == m),
{
    match model_type {
        None => Ok(None),
        Some(s) => match ModelType::parse(s) {
            Ok(mt) => Ok(Some(mt)),
            Err(e) => Err(EngineError::InvalidInput(e)),
        },
    }
}

/// Whether a model in `status` serves requests without loading.
pub open spec fn is_ready(status: ModelStatus) -> bool {
    status == ModelStatus::Loaded || status == ModelStatus::Running
}

/// Whether a model in `status` must be loaded before it runs.
pub fn needs_load(status: ModelStatus) -> (r: bool)
    ensures
        r == !is_ready(status),
{
    !(status == ModelStatus::Loaded || status == ModelStatus::Running)
}

/// Models that are loaded or running.
pub open spec fn ready_pred() -> spec_fn(ModelInfoView) -> bool {
    |m: ModelInfoView| is_ready(m.status)
}

/// The models that are loaded or running, in order.
pub open spec fn ready_models(models: Seq<ModelInfoView>) -> Seq<ModelInfoView> {
    models.filter(ready_pred())
}

/// One more element of a filtered prefix.
proof fn lemma_filter_step<A>(s: Seq<A>, i: int, p: spec_fn(A) -> bool)
    requires
        0 <= i < s.len(),
    ensures
        s.take(i + 1).filter(p) == (if p(s[i]) {
            s.take(i).filter(p).push(s[i])
        } else {
            s.take(i).filter(p)
        }),
{
    reveal(Seq::filter);
    assert(s.take(i + 1).drop_last() =~= s.take(i));
    assert(s.take(i + 1).last() == s[i]);
}

/// The models that are loaded or running, in order.
pub fn loaded_models(models: &[ModelInfo]) -> (r: Vec<ModelInfo>)
    ensures
        model_views(r@) == ready_models(model_views(models@)),
{
    let ghost all = model_views(models@);
    let mut out: Vec<ModelInfo> = Vec::new();
    let mut i: usize = 0;
    while i < models.len()
        invariant
            all == model_views(models@),
            i <= models@.len(),
            model_views(out@) == ready_models(all.take(i as int)),
        decreases models.len() - i,
    {
        let ghost before = out@;
        proof {
            lemma_filter_step(all, i as int, ready_pred());
        }
        if models[i].status == ModelStatus::Loaded || models[i].status == ModelStatus::Running {
            out.push(models[i].duplicate());
            assert(model_views(out@) =~= model_views(before).push(models@[i as int]@));
        } else {
            assert(model_views(out@) =~= model_views(before));
        }
        i = i + 1;
    }
    assert(all.take(i as int) =~= all);
    out
}

/// Models a backend of type `bt` serves.
pub open spec fn backend_pred(bt: BackendType) -> spec_fn(ModelInfoView) -> bool {
    |m: ModelInfoView| m.backend == bt
}

/// How many of `models` a backend of type `bt` serves.
pub open spec fn served_by(models: Seq<ModelInfoView>, bt: BackendType) -> nat {
    models.filter(backend_pred(bt)).len()
}

/// The status of each backend: healthy, with the number of models it serves.
pub fn backend_statuses(models: &[ModelInfo], backends: &[BackendType]) -> (r: Vec<BackendStatus>)
    ensures
        r@.len() == backends@.len(),
        forall|k: int|
            0 <= k < r@.len() ==> (#[trigger] r@[k]).backend_type == backends@[k] && r@[k].healthy
                && r@[k].model_count == served_by(model_views(models@), backends@[k]),
{
    let ghost all = model_views(models@);
    let mut out: Vec<BackendStatus> = Vec::new();
    let mut k: usize = 0;
    while k < backends.len()
        invariant
            all == model_views(models@),
            k <= backends@.len(),
            out@.len() == k,
            forall|j: int|
                0 <= j < k ==> (#[trigger] out@[j]).backend_type == backends@[j] && out@[j].healthy
                    && out@[j].model_count == served_by(all, backends@[j]),
        decreases backends.len() - k,
    {
        let bt = backends[k];
        let mut count: usize = 0;
        let mut i: usize = 0;
        while i < models.len()
            invariant
                all == model_views(models@),
                i <= models@.len(),
                count == served_by(all.take(i as int), bt),
                count <= i,
            decreases models.len() - i,
        {
            proof {
                lemma_filter_step(all, i as int, backend_pred(bt));
            }
            if models[i].backend == bt {
                count = count + 1;
            }
            i = i + 1;
        }
        assert(all.take(i as int) =~= all);
        out.push(BackendStatus { backend_type: bt, healthy: true, model_count: count });
        k = k + 1;
    }
    out
}

/// The engine's status: memory figures, the models loaded or running, and
/// each backend with the number of models it serves.
pub fn engine_status(
    total: u64,
    used: u64,
    available: u64,
    models: &[ModelInfo],
    backends: &[BackendType],
) -> (r: EngineStatus)
    ensures
        r.total_memory_bytes == total,
        r.used_memory_bytes == used,
        r.available_memory_bytes == available,
        model_views(r.loaded_models@) == ready_models(model_views(models@)),
        r.backends@.len() == backends@.len(),
        forall|k: int|
            0 <= k < r.backends@.len() ==> (#[trigger] r.backends@[k]).backend_type == backends@[k]
                && r.backends@[k].healthy && r.backends@[k].model_count == served_by(
                model_views(models@),
                backends@[k],
            ),
{
    EngineStatus {
        total_memory_bytes: total,
        used_memory_bytes: used,
        available_memory_bytes: available,
        loaded_models: loaded_models(models),
        backends: backend_statuses(models, backends),
    }
}

/// Whether `m` may stand in for the failed model `failed`: same type, another
/// model, on another backend.
pub open spec fn can_stand_in(m: ModelInfoView, failed: ModelInfoView) -> bool {
    m.model_type == failed.model_type && m.id != failed.id && m.backend != failed.backend
}

/// Models that may stand in for `failed`.
pub open spec fn stand_in_pred(failed: ModelInfoView) -> spec_fn(ModelInfoView) -> bool {
    |m: ModelInfoView| can_stand_in(m, failed)
}

/// The models that may stand in for `failed`, in order.
pub fn fallback_candidates(models: &[ModelInfo], failed: &ModelInfo) -> (r: Vec<ModelInfo>)
    ensures
        model_views(r@) == model_views(models@).filter(stand_in_pred(failed@)),
{
    let ghost all = model_views(models@);
    let ghost f = failed@;
    let mut out: Vec<ModelInfo> = Vec::new();
    let mut i: usize = 0;
    while i < models.len()
        invariant
            all == model_views(models@),
            f == failed@,
            i <= models@.len(),
            model_views(out@) == all.take(i as int).filter(stand_in_pred(f)),
        decreases models.len() - i,
    {
        let ghost before = out@;
        proof {
            lemma_filter_step(all, i as int, stand_in_pred(f));
        }
        let m = &models[i];
        if m.model_type == failed.model_type && !crate::text::str_eq(m.id.as_str(), failed.id.as_str())
            && m.backend != failed.backend {
            out.push(m.duplicate());
            assert(model_views(out@) =~= model_views(before).push(models@[i as int]@));
        } else {
            assert(model_views(out@) =~= model_views(before));
        }
        i = i + 1;
    }
    assert(all.take(i as int) =~= all);
    out
}

/// What a hint's `next` names: a model type when it parses as one, else a
/// model name.
pub open spec fn hint_target_of(next: Seq<char>) -> (Option<ModelType>, Option<Seq<char>>) {
    match parsed_model_type(next) {
        Ok(t) => (Some(t), None),
        Err(_) => (None, Some(next)),
    }
}

/// Compute [`hint_target_of`].
pub fn hint_target(next: &str) -> (r: (Option<ModelType>, Option<String>))
    ensures
        r.0 == hint_target_of(next@).0,
        r.1 matches Some(n) ==> hint_target_of(next@).1 == Some(n@),
        r.1 is None ==> hint_target_of(next@).1 is None,
{
    match ModelType::parse(next) {
        Ok(t) => (Some(t), None),
        Err(_) => (None, Some(owned(next))),
    }
}

/// Entries idle for at least `timeout_secs`.
pub open spec fn idle_pred(timeout_secs: u64) -> spec_fn((String, u64)) -> bool {
    |e: (String, u64)| e.1 >= timeout_secs
}

/// The names of entries.
pub open spec fn entry_names(s: Seq<(String, u64)>) -> Seq<Seq<char>> {
    s.map_values(|e: (String, u64)| e.0@)
}

/// The models idle for at least `timeout_secs`, given each model's
/// seconds since its last use, in order.
pub fn idle_models(last_use: &[(String, u64)], timeout_secs: u64) -> (r: Vec<String>)
    ensures
        r@.map_values(|s: String| s@) == entry_names(last_use@.filter(idle_pred(timeout_secs))),
{
    let mut out: Vec<String> = Vec::new();
    let mut i: usize = 0;
    while i < last_use.len()
        invariant
            i <= last_use@.len(),
            out@.map_values(|s: String| s@) == entry_names(last_use@.take(i as int).filter(idle_pred(timeout_secs))),
        decreases last_use.len() - i,
    {
        let ghost before = out@;
        proof {
            lemma_filter_step(last_use@, i as int, idle_pred(timeout_secs));
        }
        if last_use[i].1 >= timeout_secs {
            out.push(last_use[i].0.clone());
            assert(out@.map_values(|s: String| s@) =~= before.map_values(|s: String| s@).push(last_use@[i as int].0@));
            assert(entry_names(last_use@.take(i as int + 1).filter(idle_pred(timeout_secs))) =~= entry_names(
                last_use@.take(i as int).filter(idle_pred(timeout_secs)),
            ).push(last_use@[i as int].0@));
        }
        i = i + 1;
    }
    assert(last_use@.take(i as int) =~= last_use@);
    out
}

/// A run's duration in whole milliseconds, saturating at `u64::MAX`.
pub fn duration_millis(millis: u128) -> (r: u64)
    ensures
        r == (if millis > u64::MAX as u128 {
            u64::MAX
        } else {
            millis as u64
        }),
{
    if millis > u64::MAX as u128 {
        u64::MAX
    } else {
        millis as u64
    }
}

/// The HTTP status and error code the API answers a failed run with: 404
/// for an unknown model, 400 for invalid input, 503 when memory or the
/// backend is lacking, 500 otherwise.
pub open spec fn http_error_of(e: EngineError) -> (u16, Seq<char>) {
    match e {
        EngineError::ModelNotFound(_) => (404, "model_not_found"@),
        EngineError::InvalidInput(_) => (400, "invalid_input"@),
        EngineError::InsufficientMemory { .. } => (503, "insufficient_memory"@),
        EngineError::BackendNotAvailable(_) => (503, "backend_unavailable"@),
        _ => (500, "internal_error"@),
    }
}

/// Compute [`http_error_of`].
pub fn http_error(e: &EngineError) -> (r: (u16, &'static str))
    ensures
        r.0 == http_error_of(*e).0,
        r.1@ == http_error_of(*e).1,
{
    match e {
        EngineError::ModelNotFound(_) => (404, "model_not_found"),
        EngineError::InvalidInput(_) => (400, "invalid_input"),
        EngineError::InsufficientMemory { .. } => (503, "insufficient_memory"),
        EngineError::BackendNotAvailable(_) => (503, "backend_unavailable"),
        _ => (500, "internal_error"),
    }
}

} // verus!
