//! The decisions of a streaming request, as a step function.
//!
//! A streamed request alternates outside work (routing, the circuit breaker,
//! loading the model, waiting for a concurrency permit, the provider's
//! stream) with decisions. [`stream_step`] takes the request's phase and what
//! the outside work reported, and gives the next phase and the actions to
//! perform, among them the chunks to send to the client. The caller performs
//! the actions in order and reports the next event.
//!
//! The chunk protocol the client sees: either a single `Error` chunk, or
//! `Started`, then the text deltas in the order they arrived, then exactly one
//! terminal chunk (`Completed` or `Error`), after which nothing is sent. The
//! preflight warm-up is triggered exactly once, right before `Started`, so
//! before the first delta. [`law_stream_protocol`] states this for every
//! sequence of events.

use vstd::prelude::*;

use crate::kernel::EngineError;
use crate::text::owned;

verus! {

/// Why a stream ended in an error.
#[derive(Debug, Clone, Copy, PartialEq, Eq, Structural)]
pub enum ErrorCode {
    /// The request failed the name or input-path checks.
    Rejected,
    /// No model can serve the requested capability.
    NoCapableModel,
    /// The chosen provider's circuit breaker refused the request.
    CircuitOpen,
    /// The chosen provider is not registered.
    ProviderNotFound,
    /// Loading the model failed.
    LoadFailed,
    /// No concurrency permit came within the queue budget.
    QueueTimeout,
    /// The concurrency limiter was closed.
    QueueClosed,
    /// The provider's stream failed.
    ProviderFailed,
    /// The provider did not finish within the inference budget.
    InferenceTimeout,
}

/// A chunk sent to the client.
#[derive(Debug, Clone)]
pub enum StreamChunk {
    /// The request runs on `model_used` of `provider`.
    Started { request_id: String, model_used: String, provider: String },
    /// A text delta from the provider.
    Text { delta: String },
    /// The request finished.
    Completed {
        duration_ms: u64,
        tokens_used: Option<u32>,
        file: Option<String>,
        fallback_used: bool,
        routing_reason: Option<String>,
    },
    /// The request failed: what failed (`code`), on what (`subject`: the
    /// capability, provider or model concerned), and the underlying error
    /// where there is one.
    Error { code: ErrorCode, subject: String, cause: Option<EngineError> },
}

/// The model chosen by routing.
#[derive(Debug, Clone)]
pub struct Candidate {
    /// Canonical model id.
    pub model_id: String,
    /// Model name reported to the client.
    pub model_used: String,
    /// Serving provider.
    pub provider: String,
    /// Why routing chose it.
    pub routing_reason: String,
}

/// Where a streaming request stands.
#[derive(Debug, Clone)]
pub enum StreamPhase {
    /// Checked and routing; `capability` names what was requested.
    Routing { request_id: String, capability: String },
    /// A candidate was chosen; its breaker and provider are being checked.
    Admitting { request_id: String, candidate: Candidate },
    /// The candidate's model is being loaded.
    Loading { request_id: String, candidate: Candidate },
    /// Waiting for a concurrency permit.
    Queued { request_id: String, candidate: Candidate },
    /// The provider is streaming.
    Streaming { candidate: Candidate },
    /// The terminal chunk has been sent.
    Done,
}

/// What the outside work reported.
#[derive(Debug)]
pub enum StreamEvent {
    /// The name or input-path check refused the request.
    Rejected(EngineError),
    /// Routing's first candidate, if any.
    Routed(Option<Candidate>),
    /// Whether the breaker admits the request, and whether the provider is
    /// registered.
    Admission { allowed: bool, provider_found: bool },
    /// The outcome of loading the model.
    Loaded(Result<(), EngineError>),
    /// A concurrency permit was granted.
    PermitGranted,
    /// The queue budget ran out before a permit came.
    QueueTimedOut,
    /// The concurrency limiter was closed.
    QueueClosed,
    /// The provider produced a text delta.
    Delta(String),
    /// The provider finished after `duration_ms`: the tokens used and the
    /// artifact file, or its error.
    Finished { duration_ms: u64, outcome: Result<(Option<u32>, Option<String>), EngineError> },
    /// The inference budget of `budget_ms` ran out.
    InferenceTimedOut { budget_ms: u64 },
}

/// What the caller performs.
#[derive(Debug, Clone)]
pub enum StreamAction {
    /// Send a chunk to the client.
    Send(StreamChunk),
    /// Ask the breaker of `provider` for admission and look the provider up.
    CheckAdmission { provider: String },
    /// Announce the request and load `model_id` on `provider`.
    Load { model_id: String, provider: String },
    /// Wait for a concurrency permit of `model_id`.
    AwaitPermit { model_id: String },
    /// Mark `model_id` executing (and lease its memory).
    BeginExecution { model_id: String },
    /// Start speculative warming for the request's likely next capability.
    TriggerPreflight,
    /// Run the provider's stream for `model_id`.
    StartInference { model_id: String },
    /// Mark `model_id` no longer executing (and release its lease).
    EndExecution { model_id: String },
    /// Record the request's outcome: breaker, transition history, events and
    /// metrics.
    RecordOutcome { provider: String, success: bool, duration_ms: u64 },
}

/// The error chunk for `code` on `subject`.
pub open spec fn error_chunk(code: ErrorCode, subject: String, cause: Option<EngineError>) -> StreamChunk {
    StreamChunk::Error { code, subject, cause }
}

/// The next phase and the actions for `event` in `phase`. An event that
/// does not belong to the phase changes nothing.
pub open spec fn step_of(phase: StreamPhase, event: StreamEvent) -> (StreamPhase, Seq<StreamAction>) {
    match (phase, event) {
        (StreamPhase::Routing { capability, .. }, StreamEvent::Rejected(e)) => (
            StreamPhase::Done,
            seq![StreamAction::Send(error_chunk(ErrorCode::Rejected, capability, Some(e)))],
        ),
        (StreamPhase::Routing { capability, .. }, StreamEvent::Routed(None)) => (
            StreamPhase::Done,
            seq![StreamAction::Send(error_chunk(ErrorCode::NoCapableModel, capability, None))],
        ),
        (StreamPhase::Routing { request_id, .. }, StreamEvent::Routed(Some(c))) => (
            StreamPhase::Admitting { request_id, candidate: c },
            seq![StreamAction::CheckAdmission { provider: c.provider }],
        ),
        (StreamPhase::Admitting { request_id, candidate }, StreamEvent::Admission { allowed, provider_found }) => {
            if !allowed {
                (
                    StreamPhase::Done,
                    seq![StreamAction::Send(error_chunk(ErrorCode::CircuitOpen, candidate.provider, None))],
                )
            } else if !provider_found {
                (
                    StreamPhase::Done,
                    seq![StreamAction::Send(error_chunk(ErrorCode::ProviderNotFound, candidate.provider, None))],
                )
            } else {
                (
                    StreamPhase::Loading { request_id, candidate },
                    seq![StreamAction::Load { model_id: candidate.model_id, provider: candidate.provider }],
                )
            }
        },
        (StreamPhase::Loading { candidate, .. }, StreamEvent::Loaded(Err(e))) => (
            StreamPhase::Done,
            seq![
                StreamAction::RecordOutcome { provider: candidate.provider, success: false, duration_ms: 0 },
                StreamAction::Send(error_chunk(ErrorCode::LoadFailed, candidate.model_id, Some(e))),
            ],
        ),
        (StreamPhase::Loading { request_id, candidate }, StreamEvent::Loaded(Ok(()))) => (
            StreamPhase::Queued { request_id, candidate },
            seq![StreamAction::AwaitPermit { model_id: candidate.model_id }],
        ),
        (StreamPhase::Queued { candidate, .. }, StreamEvent::QueueTimedOut) => (
            StreamPhase::Done,
            seq![
                StreamAction::RecordOutcome { provider: candidate.provider, success: false, duration_ms: 0 },
                StreamAction::Send(error_chunk(ErrorCode::QueueTimeout, candidate.model_id, None)),
            ],
        ),
        (StreamPhase::Queued { candidate, .. }, StreamEvent::QueueClosed) => (
            StreamPhase::Done,
            seq![
                StreamAction::RecordOutcome { provider: candidate.provider, success: false, duration_ms: 0 },
                StreamAction::Send(error_chunk(ErrorCode::QueueClosed, candidate.model_id, None)),
            ],
        ),
        (StreamPhase::Queued { request_id, candidate }, StreamEvent::PermitGranted) => (
            StreamPhase::Streaming { candidate },
            seq![
                StreamAction::BeginExecution { model_id: candidate.model_id },
                StreamAction::TriggerPreflight,
                StreamAction::Send(
                    StreamChunk::Started {
                        request_id,
                        model_used: candidate.model_used,
                        provider: candidate.provider,
                    },
                ),
                StreamAction::StartInference { model_id: candidate.model_id },
            ],
        ),
        (StreamPhase::Streaming { candidate }, StreamEvent::Delta(d)) => (
            StreamPhase::Streaming { candidate },
            seq![StreamAction::Send(StreamChunk::Text { delta: d })],
        ),
        (StreamPhase::Streaming { candidate }, StreamEvent::Finished { duration_ms, outcome }) => match outcome {
            Ok((tokens_used, file)) => (
                StreamPhase::Done,
                seq![
                    StreamAction::EndExecution { model_id: candidate.model_id },
                    StreamAction::RecordOutcome { provider: candidate.provider, success: true, duration_ms },
                    StreamAction::Send(
                        StreamChunk::Completed {
                            duration_ms,
                            tokens_used,
                            file,
                            fallback_used: false,
                            routing_reason: Some(candidate.routing_reason),
                        },
                    ),
                ],
            ),
            Err(e) => (
                StreamPhase::Done,
                seq![
                    StreamAction::EndExecution { model_id: candidate.model_id },
                    StreamAction::RecordOutcome { provider: candidate.provider, success: false, duration_ms },
                    StreamAction::Send(error_chunk(ErrorCode::ProviderFailed, candidate.provider, Some(e))),
                ],
            ),
        },
        (StreamPhase::Streaming { candidate }, StreamEvent::InferenceTimedOut { budget_ms }) => (
            StreamPhase::Done,
            seq![
                StreamAction::EndExecution { model_id: candidate.model_id },
                StreamAction::RecordOutcome { provider: candidate.provider, success: false, duration_ms: budget_ms },
                StreamAction::Send(error_chunk(ErrorCode::InferenceTimeout, candidate.provider, None)),
            ],
        ),
        (p, _) => (p, Seq::empty()),
    }
}

/// The chunk protocol as a recognizer over actions. States: 0 nothing sent,
/// 1 warm-up triggered, 2 `Started` sent, 3 terminal chunk sent, -1 broken.
/// The warm-up comes only first; `Started` only right after it; deltas only
/// after `Started`; `Completed` only after `Started`; `Error` alone or after
/// `Started`; nothing after a terminal chunk.
pub open spec fn protocol_next(s: int, a: StreamAction) -> int {
    match a {
        StreamAction::TriggerPreflight => if s == 0 { 1 } else { -1 },
        StreamAction::Send(StreamChunk::Started { .. }) => if s == 1 { 2 } else { -1 },
        StreamAction::Send(StreamChunk::Text { .. }) => if s == 2 { 2 } else { -1 },
        StreamAction::Send(StreamChunk::Completed { .. }) => if s == 2 { 3 } else { -1 },
        StreamAction::Send(StreamChunk::Error { .. }) => if s == 0 || s == 2 { 3 } else { -1 },
        _ => s,
    }
}

/// The recognizer's state after `actions`, starting in `s`.
pub open spec fn protocol_state(s: int, actions: Seq<StreamAction>) -> int
    decreases actions.len(),
{
    if actions.len() == 0 {
        s
    } else {
        protocol_state(protocol_next(s, actions[0]), actions.skip(1))
    }
}

/// The recognizer state a phase stands for.
pub open spec fn phase_state(p: StreamPhase) -> int {
    match p {
        StreamPhase::Streaming { .. } => 2,
        StreamPhase::Done => 3,
        _ => 0,
    }
}

/// The phase and all actions after feeding `events` in order from `phase`.
pub open spec fn run_of(phase: StreamPhase, events: Seq<StreamEvent>) -> (StreamPhase, Seq<StreamAction>)
    decreases events.len(),
{
    if events.len() == 0 {
        (phase, Seq::empty())
    } else {
        let (next, first) = step_of(phase, events[0]);
        let (last, rest) = run_of(next, events.skip(1));
        (last, first + rest)
    }
}

proof fn lemma_protocol_concat(s: int, a: Seq<StreamAction>, b: Seq<StreamAction>)
    ensures
        protocol_state(s, a + b) == protocol_state(protocol_state(s, a), b),
    decreases a.len(),
{
    if a.len() > 0 {
        assert((a + b).skip(1) =~= a.skip(1) + b);
        assert((a + b)[0] == a[0]);
        lemma_protocol_concat(protocol_next(s, a[0]), a.skip(1), b);
    } else {
        assert(a + b =~= b);
    }
}

proof fn lemma_protocol_broken(actions: Seq<StreamAction>)
    ensures
        protocol_state(-1, actions) == -1,
    decreases actions.len(),
{
    if actions.len() > 0 {
        lemma_protocol_broken(actions.skip(1));
    }
}

proof fn lemma_step_keeps_protocol(phase: StreamPhase, event: StreamEvent)
    ensures
        protocol_state(phase_state(phase), step_of(phase, event).1) == phase_state(step_of(phase, event).0),
{
    reveal_with_fuel(protocol_state, 5);
    let acts = step_of(phase, event).1;
    if acts.len() > 0 {
        assert(acts.skip(1).skip(1) =~= acts.drop_first().drop_first());
    }
}

proof fn lemma_run_keeps_protocol(phase: StreamPhase, events: Seq<StreamEvent>)
    ensures
        protocol_state(phase_state(phase), run_of(phase, events).1) == phase_state(run_of(phase, events).0),
    decreases events.len(),
{
    if events.len() > 0 {
        let (next, first) = step_of(phase, events[0]);
        lemma_step_keeps_protocol(phase, events[0]);
        lemma_run_keeps_protocol(next, events.skip(1));
        lemma_protocol_concat(phase_state(phase), first, run_of(next, events.skip(1)).1);
    }
}

/// The chunk protocol holds for every sequence of events fed to a request
/// from its routing phase: the actions never break the recognizer of
/// [`protocol_next`], so a client sees either one `Error` chunk, or `Started`
/// (preceded by exactly one warm-up trigger), then text deltas, then at most
/// one terminal chunk with nothing after it; and the request is done exactly
/// when its terminal chunk has been sent.
pub proof fn law_stream_protocol(request_id: String, capability: String, events: Seq<StreamEvent>)
    ensures
        ({
            let (last, actions) = run_of(StreamPhase::Routing { request_id, capability }, events);
            &&& protocol_state(0, actions) != -1
            &&& (last is Done <==> protocol_state(0, actions) == 3)
        }),
{
    lemma_run_keeps_protocol(StreamPhase::Routing { request_id, capability }, events);
}

/// The text deltas of a running stream are forwarded one chunk each, in the
/// order they arrive, and the stream keeps running.
pub proof fn law_deltas_in_order(candidate: Candidate, deltas: Seq<String>)
    ensures
        run_of(StreamPhase::Streaming { candidate }, deltas.map_values(|d: String| StreamEvent::Delta(d)))
            == (
            StreamPhase::Streaming { candidate },
            deltas.map_values(|d: String| StreamAction::Send(StreamChunk::Text { delta: d })),
        ),
    decreases deltas.len(),
{
    let events = deltas.map_values(|d: String| StreamEvent::Delta(d));
    let sends = deltas.map_values(|d: String| StreamAction::Send(StreamChunk::Text { delta: d }));
    if deltas.len() > 0 {
        let rest = deltas.skip(1);
        assert(events.skip(1) =~= rest.map_values(|d: String| StreamEvent::Delta(d)));
        law_deltas_in_order(candidate, rest);
        assert(sends =~= seq![StreamAction::Send(StreamChunk::Text { delta: deltas[0] })] + rest.map_values(
            |d: String| StreamAction::Send(StreamChunk::Text { delta: d }),
        ));
    } else {
        assert(sends =~= Seq::<StreamAction>::empty());
    }
}

/// Whether the actions answer a provider's finish as the client must see
/// it: on success the stream is done and its last action sends `Completed`
/// carrying the provider's duration, tokens used and artifact file; on a
/// provider error the stream is done and its last action sends an `Error`
/// whose cause is that error.
pub open spec fn finish_reported(event: StreamEvent, next: StreamPhase, actions: Seq<StreamAction>) -> bool {
    match event {
        StreamEvent::Finished { duration_ms, outcome } => {
            &&& next is Done
            &&& actions.len() > 0
            &&& match outcome {
                Ok((tokens, file)) => actions.last() matches StreamAction::Send(
                    StreamChunk::Completed { duration_ms: d, tokens_used: t, file: f, .. },
                ) && d == duration_ms && t == tokens && f == file,
                Err(e) => actions.last() matches StreamAction::Send(StreamChunk::Error { cause: c, .. }) && c
                    == Some(e),
            }
        },
        _ => true,
    }
}

/// Law: a finished stream reports what the provider gave. When the
/// provider finishes, the last chunk sent is the terminal one: `Completed`
/// with the provider's duration, tokens used and artifact file, or `Error`
/// with the provider's error as its cause.
pub proof fn law_finish_reports_outcome(candidate: Candidate, event: StreamEvent)
    ensures
        finish_reported(
            event,
            step_of(StreamPhase::Streaming { candidate }, event).0,
            step_of(StreamPhase::Streaming { candidate }, event).1,
        ),
{
}

/// With no candidate the only chunk is an `Error` with
/// [`ErrorCode::NoCapableModel`] on the requested capability, and the
/// request is done.
pub proof fn law_no_candidate(request_id: String, capability: String)
    ensures
        step_of(StreamPhase::Routing { request_id, capability }, StreamEvent::Routed(None)) == (
            StreamPhase::Done,
            seq![StreamAction::Send(StreamChunk::Error { code: ErrorCode::NoCapableModel, subject: capability, cause: None })],
        ),
{
}

fn send(chunk: StreamChunk) -> (r: Vec<StreamAction>)
    ensures
        r@ == seq![StreamAction::Send(chunk)],
{
    let mut v = Vec::new();
    v.push(StreamAction::Send(chunk));
    v
}

/// The outcome record and error chunk of a request that failed before its
/// stream started.
fn failed_before_start(provider: String, code: ErrorCode, model_id: String, cause: Option<EngineError>) -> (r: Vec<
    StreamAction,
>)
    ensures
        r@ == seq![
            StreamAction::RecordOutcome { provider, success: false, duration_ms: 0 },
            StreamAction::Send(error_chunk(code, model_id, cause)),
        ],
{
    let mut v = Vec::new();
    v.push(StreamAction::RecordOutcome { provider, success: false, duration_ms: 0 });
    v.push(StreamAction::Send(StreamChunk::Error { code, subject: model_id, cause }));
    v
}

/// The end of a started stream: execution ends, the outcome is recorded and
/// the terminal chunk is sent.
fn finish(model_id: String, provider: String, success: bool, duration_ms: u64, chunk: StreamChunk) -> (r: Vec<
    StreamAction,
>)
    ensures
        r@ == seq![
            StreamAction::EndExecution { model_id },
            StreamAction::RecordOutcome { provider, success, duration_ms },
            StreamAction::Send(chunk),
        ],
{
    let mut v = Vec::new();
    v.push(StreamAction::EndExecution { model_id });
    v.push(StreamAction::RecordOutcome { provider, success, duration_ms });
    v.push(StreamAction::Send(chunk));
    v
}

/// One decision of a streaming request: the next phase and the actions to
/// perform, in order (see [`step_of`]).
pub fn stream_step(phase: StreamPhase, event: StreamEvent) -> (r: (StreamPhase, Vec<StreamAction>))
    ensures
        r.0 == step_of(phase, event).0,
        r.1@ == step_of(phase, event).1,
        phase is Streaming ==> finish_reported(event, r.0, r.1@),
{
    proof {
        if phase is Streaming {
            law_finish_reports_outcome(phase->Streaming_candidate, event);
        }
    }
    match (phase, event) {
        (StreamPhase::Routing { capability, .. }, StreamEvent::Rejected(e)) => (
            StreamPhase::Done,
            send(StreamChunk::Error { code: ErrorCode::Rejected, subject: capability, cause: Some(e) }),
        ),
        (StreamPhase::Routing { capability, .. }, StreamEvent::Routed(None)) => (
            StreamPhase::Done,
            send(StreamChunk::Error { code: ErrorCode::NoCapableModel, subject: capability, cause: None }),
        ),
        (StreamPhase::Routing { request_id, .. }, StreamEvent::Routed(Some(c))) => {
            let provider = c.provider.clone();
            let mut v = Vec::new();
            v.push(StreamAction::CheckAdmission { provider });
            (StreamPhase::Admitting { request_id, candidate: c }, v)
        },
        (StreamPhase::Admitting { request_id, candidate }, StreamEvent::Admission { allowed, provider_found }) => {
            if !allowed {
                (
                    StreamPhase::Done,
                    send(StreamChunk::Error { code: ErrorCode::CircuitOpen, subject: candidate.provider, cause: None }),
                )
            } else if !provider_found {
                (
                    StreamPhase::Done,
                    send(
                        StreamChunk::Error { code: ErrorCode::ProviderNotFound, subject: candidate.provider, cause: None },
                    ),
                )
            } else {
                let model_id = candidate.model_id.clone();
                let provider = candidate.provider.clone();
                let mut v = Vec::new();
                v.push(StreamAction::Load { model_id, provider });
                (StreamPhase::Loading { request_id, candidate }, v)
            }
        },
        (StreamPhase::Loading { candidate, .. }, StreamEvent::Loaded(Err(e))) => (
            StreamPhase::Done,
            failed_before_start(candidate.provider, ErrorCode::LoadFailed, candidate.model_id, Some(e)),
        ),
        (StreamPhase::Loading { request_id, candidate }, StreamEvent::Loaded(Ok(()))) => {
            let model_id = candidate.model_id.clone();
            let mut v = Vec::new();
            v.push(StreamAction::AwaitPermit { model_id });
            (StreamPhase::Queued { request_id, candidate }, v)
        },
        (StreamPhase::Queued { candidate, .. }, StreamEvent::QueueTimedOut) => (
            StreamPhase::Done,
            failed_before_start(candidate.provider, ErrorCode::QueueTimeout, candidate.model_id, None),
        ),
        (StreamPhase::Queued { candidate, .. }, StreamEvent::QueueClosed) => (
            StreamPhase::Done,
            failed_before_start(candidate.provider, ErrorCode::QueueClosed, candidate.model_id, None),
        ),
        (StreamPhase::Queued { request_id, candidate }, StreamEvent::PermitGranted) => {
            let mut v = Vec::new();
            v.push(StreamAction::BeginExecution { model_id: candidate.model_id.clone() });
            v.push(StreamAction::TriggerPreflight);
            v.push(
                StreamAction::Send(
                    StreamChunk::Started {
                        request_id,
                        model_used: candidate.model_used.clone(),
                        provider: candidate.provider.clone(),
                    },
                ),
            );
            v.push(StreamAction::StartInference { model_id: candidate.model_id.clone() });
            (StreamPhase::Streaming { candidate }, v)
        },
        (StreamPhase::Streaming { candidate }, StreamEvent::Delta(d)) => (
            StreamPhase::Streaming { candidate },
            send(StreamChunk::Text { delta: d }),
        ),
        (StreamPhase::Streaming { candidate }, StreamEvent::Finished { duration_ms, outcome }) => match outcome {
            Ok((tokens_used, file)) => {
                let chunk = StreamChunk::Completed {
                    duration_ms,
                    tokens_used,
                    file,
                    fallback_used: false,
                    routing_reason: Some(candidate.routing_reason),
                };
                (StreamPhase::Done, finish(candidate.model_id, candidate.provider, true, duration_ms, chunk))
            },
            Err(e) => {
                let provider = candidate.provider.clone();
                let chunk = StreamChunk::Error { code: ErrorCode::ProviderFailed, subject: provider, cause: Some(e) };
                (StreamPhase::Done, finish(candidate.model_id, candidate.provider, false, duration_ms, chunk))
            },
        },
        (StreamPhase::Streaming { candidate }, StreamEvent::InferenceTimedOut { budget_ms }) => {
            let provider = candidate.provider.clone();
            let chunk = StreamChunk::Error { code: ErrorCode::InferenceTimeout, subject: provider, cause: None };
            (StreamPhase::Done, finish(candidate.model_id, candidate.provider, false, budget_ms, chunk))
        },
        (p, _) => (p, Vec::new()),
    }
}

/// Where a request's walk over its ranked candidates stands.
#[derive(Debug, Clone)]
pub enum Walk {
    /// Candidate `index` of `count` is being tried.
    Trying { index: usize, count: usize },
    /// The walk has ended.
    Finished,
}

/// What the walk calls for next.
#[derive(Debug, Clone)]
pub enum WalkAction {
    /// Try candidate `index` (circuit breaker, load, queue, inference).
    Attempt(usize),
    /// Candidate `index` answered; `fallback_used` when it is not the first.
    Succeed { index: usize, fallback_used: bool },
    /// The request fails.
    Fail(WalkFailure),
    /// The walk has already ended; nothing to do.
    Idle,
}

/// Why a walk failed.
#[derive(Debug, Clone)]
pub enum WalkFailure {
    /// Routing found no candidate at all.
    NoCapableModel,
    /// The last error met: a non-retryable one, the last candidate's, or the
    /// overall deadline's.
    Error(EngineError),
}

/// What trying a candidate gave.
#[derive(Debug)]
pub enum AttemptEvent {
    /// The candidate answered.
    Succeeded,
    /// The candidate failed with `error`, which the error's kind makes
    /// `retryable` or not; `deadline_left` tells whether the request's
    /// overall deadline still leaves time.
    Failed { error: EngineError, retryable: bool, deadline_left: bool },
}

/// The message of an overall-deadline failure.
pub open spec fn deadline_message() -> Seq<char> {
    "overall request deadline exceeded"@
}

/// Start walking `count` ranked candidates: none gives
/// [`WalkFailure::NoCapableModel`]; no time left gives the deadline error;
/// otherwise the first candidate is tried.
pub fn walk_begin(count: usize, deadline_left: bool) -> (r: (Walk, WalkAction))
    ensures
        count == 0 ==> (r.0 is Finished && r.1 matches WalkAction::Fail(WalkFailure::NoCapableModel)),
        count > 0 && !deadline_left ==> (r.0 is Finished && (r.1 matches WalkAction::Fail(
            WalkFailure::Error(EngineError::Timeout(m)),
        ) && m@ == deadline_message())),
        count > 0 && deadline_left ==> (r.0 == (Walk::Trying { index: 0, count }) && (r.1 matches WalkAction::Attempt(
            j,
        ) && j == 0)),
{
    if count == 0 {
        (Walk::Finished, WalkAction::Fail(WalkFailure::NoCapableModel))
    } else if !deadline_left {
        (
            Walk::Finished,
            WalkAction::Fail(WalkFailure::Error(EngineError::Timeout(owned("overall request deadline exceeded")))),
        )
    } else {
        (Walk::Trying { index: 0, count }, WalkAction::Attempt(0))
    }
}

/// One step of the walk after an attempt. A success ends it, flagging a
/// fallback when the answering candidate is not the first. A failure that
/// is not retryable ends it with that error and never moves on. A
/// retryable failure moves on to the next candidate while one is left and
/// the deadline leaves time; after the last candidate the walk fails with
/// that candidate's error, and when time has run out with the deadline
/// error. A finished walk stays finished.
pub fn walk_step(walk: Walk, event: AttemptEvent) -> (r: (Walk, WalkAction))
    requires
        walk matches Walk::Trying { index, count } ==> index < count,
    ensures
        walk is Finished ==> (r.0 is Finished && r.1 is Idle),
        walk matches Walk::Trying { index, count } ==> match event {
            AttemptEvent::Succeeded => r.0 is Finished && r.1 == (WalkAction::Succeed {
                index,
                fallback_used: index > 0,
            }),
            AttemptEvent::Failed { error, retryable, deadline_left } => if !retryable || index + 1 == count {
                r.0 is Finished && (r.1 matches WalkAction::Fail(WalkFailure::Error(e)) && e == error)
            } else if !deadline_left {
                r.0 is Finished && (r.1 matches WalkAction::Fail(WalkFailure::Error(EngineError::Timeout(m)))
                    && m@ == deadline_message())
            } else {
                r.0 == (Walk::Trying { index: (index + 1) as usize, count }) && (r.1 matches WalkAction::Attempt(j)
                    && j == index + 1)
            },
        },
{
    match walk {
        Walk::Finished => (Walk::Finished, WalkAction::Idle),
        Walk::Trying { index, count } => match event {
            AttemptEvent::Succeeded => (Walk::Finished, WalkAction::Succeed { index, fallback_used: index > 0 }),
            AttemptEvent::Failed { error, retryable, deadline_left } => {
                if !retryable || index + 1 == count {
                    (Walk::Finished, WalkAction::Fail(WalkFailure::Error(error)))
                } else if !deadline_left {
                    (
                        Walk::Finished,
                        WalkAction::Fail(
                            WalkFailure::Error(EngineError::Timeout(owned("overall request deadline exceeded"))),
                        ),
                    )
                } else {
                    (Walk::Trying { index: index + 1, count }, WalkAction::Attempt(index + 1))
                }
            },
        },
    }
}

} // verus!
