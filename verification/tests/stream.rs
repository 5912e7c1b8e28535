use mofa_engine::kernel::EngineError;
use mofa_engine::stream::{
    stream_step, walk_begin, walk_step, AttemptEvent, Candidate, ErrorCode, StreamAction, StreamChunk, StreamEvent,
    StreamPhase, Walk, WalkAction, WalkFailure,
};

fn candidate() -> Candidate {
    Candidate {
        model_id: "ollama/qwen".into(),
        model_used: "qwen".into(),
        provider: "ollama".into(),
        routing_reason: "local".into(),
    }
}

fn routing() -> StreamPhase {
    StreamPhase::Routing { request_id: "r1".into(), capability: "chat".into() }
}

fn feed(events: Vec<StreamEvent>) -> (StreamPhase, Vec<StreamAction>) {
    let mut phase = routing();
    let mut all = Vec::new();
    for e in events {
        let (next, actions) = stream_step(phase, e);
        phase = next;
        all.extend(actions);
    }
    (phase, all)
}

fn chunks(actions: &[StreamAction]) -> Vec<StreamChunk> {
    actions
        .iter()
        .filter_map(|a| match a {
            StreamAction::Send(c) => Some(c.clone()),
            _ => None,
        })
        .collect()
}

#[test]
fn stream_emits_started_deltas_then_completed() {
    let (phase, actions) = feed(vec![
        StreamEvent::Routed(Some(candidate())),
        StreamEvent::Admission { allowed: true, provider_found: true },
        StreamEvent::Loaded(Ok(())),
        StreamEvent::PermitGranted,
        StreamEvent::Delta("Hel".into()),
        StreamEvent::Delta("lo".into()),
        StreamEvent::Finished { duration_ms: 12, outcome: Ok((Some(7), None)) },
        StreamEvent::Delta("late".into()),
    ]);
    assert!(matches!(phase, StreamPhase::Done));
    let cs = chunks(&actions);
    assert_eq!(cs.len(), 4);
    assert!(matches!(&cs[0], StreamChunk::Started { request_id, model_used, provider }
        if request_id == "r1" && model_used == "qwen" && provider == "ollama"));
    assert!(matches!(&cs[1], StreamChunk::Text { delta } if delta == "Hel"));
    assert!(matches!(&cs[2], StreamChunk::Text { delta } if delta == "lo"));
    assert!(matches!(&cs[3], StreamChunk::Completed { duration_ms: 12, tokens_used: Some(7), fallback_used: false, .. }));
    let trigger = actions.iter().position(|a| matches!(a, StreamAction::TriggerPreflight)).unwrap();
    let started = actions.iter().position(|a| matches!(a, StreamAction::Send(StreamChunk::Started { .. }))).unwrap();
    assert!(trigger < started);
    assert_eq!(actions.iter().filter(|a| matches!(a, StreamAction::TriggerPreflight)).count(), 1);
}

#[test]
fn stream_without_candidate_sends_one_error() {
    let (phase, actions) = feed(vec![StreamEvent::Routed(None)]);
    assert!(matches!(phase, StreamPhase::Done));
    let cs = chunks(&actions);
    assert_eq!(cs.len(), 1);
    assert!(matches!(&cs[0], StreamChunk::Error { code: ErrorCode::NoCapableModel, subject, cause: None } if subject == "chat"));
}

#[test]
fn stream_refused_by_open_circuit() {
    let (_, actions) = feed(vec![
        StreamEvent::Routed(Some(candidate())),
        StreamEvent::Admission { allowed: false, provider_found: true },
    ]);
    let cs = chunks(&actions);
    assert_eq!(cs.len(), 1);
    assert!(matches!(&cs[0], StreamChunk::Error { code: ErrorCode::CircuitOpen, subject, .. } if subject == "ollama"));
}

#[test]
fn stream_queue_timeout_and_provider_failure() {
    let (_, actions) = feed(vec![
        StreamEvent::Routed(Some(candidate())),
        StreamEvent::Admission { allowed: true, provider_found: true },
        StreamEvent::Loaded(Ok(())),
        StreamEvent::QueueTimedOut,
    ]);
    let cs = chunks(&actions);
    assert_eq!(cs.len(), 1);
    assert!(matches!(&cs[0], StreamChunk::Error { code: ErrorCode::QueueTimeout, .. }));

    let (_, actions) = feed(vec![
        StreamEvent::Routed(Some(candidate())),
        StreamEvent::Admission { allowed: true, provider_found: true },
        StreamEvent::Loaded(Ok(())),
        StreamEvent::PermitGranted,
        StreamEvent::Finished { duration_ms: 3, outcome: Err(EngineError::InferenceFailed("x".into())) },
    ]);
    let cs = chunks(&actions);
    assert_eq!(cs.len(), 2);
    assert!(matches!(&cs[1], StreamChunk::Error { code: ErrorCode::ProviderFailed, cause: Some(_), .. }));
    assert!(actions.iter().any(|a| matches!(a, StreamAction::RecordOutcome { success: false, duration_ms: 3, .. })));
}

#[test]
fn walk_falls_back_on_retryable_failures_only() {
    let (w, a) = walk_begin(3, true);
    assert!(matches!(a, WalkAction::Attempt(0)));
    let (w, a) = walk_step(w, AttemptEvent::Failed {
        error: EngineError::Timeout("slow".into()),
        retryable: true,
        deadline_left: true,
    });
    assert!(matches!(a, WalkAction::Attempt(1)));
    let (w, a) = walk_step(w, AttemptEvent::Succeeded);
    assert!(matches!(a, WalkAction::Succeed { index: 1, fallback_used: true }));
    assert!(matches!(w, Walk::Finished));

    let (w, _) = walk_begin(3, true);
    let (_, a) = walk_step(w, AttemptEvent::Failed {
        error: EngineError::InvalidRequest("bad".into()),
        retryable: false,
        deadline_left: true,
    });
    assert!(matches!(a, WalkAction::Fail(WalkFailure::Error(EngineError::InvalidRequest(_)))));
}

#[test]
fn walk_ends_without_candidates_time_or_alternatives() {
    assert!(matches!(walk_begin(0, true).1, WalkAction::Fail(WalkFailure::NoCapableModel)));
    assert!(matches!(walk_begin(2, false).1,
        WalkAction::Fail(WalkFailure::Error(EngineError::Timeout(m))) if m == "overall request deadline exceeded"));
    let (w, _) = walk_begin(2, true);
    let (w, _) = walk_step(w, AttemptEvent::Failed { error: EngineError::Timeout("a".into()), retryable: true, deadline_left: false });
    assert!(matches!(w, Walk::Finished));
    let (w, _) = walk_begin(1, true);
    let (_, a) = walk_step(w, AttemptEvent::Failed { error: EngineError::BackendError("b".into()), retryable: true, deadline_left: true });
    assert!(matches!(a, WalkAction::Fail(WalkFailure::Error(EngineError::BackendError(m))) if m == "b"));
}
