use mofa_engine::engine::check_model_name;
use mofa_engine::quality_gate::{all_passed, has_video_stream, vlm_check, QualityCheck, StreamInfo};
use mofa_engine::artifacts::{resolve_artifact_dir, ArtifactSweeper, ARTIFACT_PREFIX};
use mofa_engine::engine::{
    admission_step, memory_report, scope_key, unload_event, Admission, LifecycleLog, LIFECYCLE_CAPACITY,
};
use mofa_engine::kernel::EngineError;
use mofa_engine::memory::MemoryManager;
use std::time::Duration;

const MB: u64 = 1024 * 1024;

#[test]
fn lifecycle_history_is_bounded_and_ordered() {
    let mut log = LifecycleLog::new();
    for i in 0..(LIFECYCLE_CAPACITY as u64 + 10) {
        log.record("m", "load", None, i);
    }
    let h = log.history_records();
    assert_eq!(h.len(), LIFECYCLE_CAPACITY);
    assert_eq!(h[0].seq, 10);
    assert_eq!(h[LIFECYCLE_CAPACITY - 1].seq, LIFECYCLE_CAPACITY as u64 + 9);
    assert_eq!(h[0].at_ms, 10);
}

#[test]
fn lifecycle_record_keeps_fields() {
    let mut log = LifecycleLog::new();
    log.record("a", "evict", Some("memory_pressure"), 5);
    let h = log.history_records();
    assert_eq!(h.len(), 1);
    assert_eq!(h[0].seq, 0);
    assert_eq!(h[0].model_id, "a");
    assert_eq!(h[0].event, "evict");
    assert_eq!(h[0].detail.as_deref(), Some("memory_pressure"));
}

#[test]
fn unload_reasons_map_to_events() {
    assert_eq!(unload_event("idle_timeout"), "idle_unload");
    assert_eq!(unload_event("manual"), "unload");
    assert_eq!(unload_event("memory_pressure"), "evict");
}

#[test]
fn admission_evicts_lru_then_admits() {
    let mut mm = MemoryManager::new(Some(100));
    mm.allocate("old", 60 * MB);
    mm.allocate("new", 30 * MB);
    match admission_step(&mut mm, "incoming", 50 * MB, &[]) {
        Admission::Evict(v) => assert_eq!(v, "old"),
        _ => panic!("expected an eviction"),
    }
    mm.deallocate("old");
    assert!(matches!(admission_step(&mut mm, "incoming", 50 * MB, &[]), Admission::Admitted));
    assert_eq!(mm.used_bytes(), 80 * MB);
}

#[test]
fn admission_refuses_when_everything_is_protected() {
    let mut mm = MemoryManager::new(Some(100));
    mm.allocate("busy", 90 * MB);
    match admission_step(&mut mm, "incoming", 50 * MB, &["busy".to_string()]) {
        Admission::Refused(EngineError::MemoryPressure { need, available }) => {
            assert_eq!(need, 50 * MB);
            assert_eq!(available, 10 * MB);
        }
        _ => panic!("expected a refusal"),
    }
}

#[test]
fn memory_report_matches_manager() {
    let mut mm = MemoryManager::new(Some(10));
    mm.allocate("b", MB);
    mm.allocate("a", 2 * MB);
    let r = memory_report(&mm);
    assert_eq!(r.used_bytes, 3 * MB);
    assert_eq!(r.budget_bytes, 10 * MB);
    assert_eq!(r.available_bytes, 7 * MB);
    assert_eq!(r.allocations.len(), 2);
    assert_eq!(r.allocations[0].model_id, "a");
}

#[test]
fn scope_prefers_session_then_app() {
    assert_eq!(scope_key(Some("s".into()), Some("a".into())), "s");
    assert_eq!(scope_key(None, Some("a".into())), "a");
    assert_eq!(scope_key(None, None), "__global__");
}

#[test]
fn artifact_dir_resolution() {
    assert_eq!(resolve_artifact_dir(None, "/tmp/mofa_artifacts".into()), "/tmp/mofa_artifacts");
    assert_eq!(resolve_artifact_dir(Some("  ".into()), "/d".into()), "/d");
    assert_eq!(resolve_artifact_dir(Some("/tmp/custom-mofa".into()), "/d".into()), "/tmp/custom-mofa");
}

#[test]
fn sweeper_judges_staleness_by_prefix_and_age() {
    let s = ArtifactSweeper::new(None, "/d".into(), Duration::from_secs(60));
    assert_eq!(s.dir(), "/d");
    assert_eq!(s.retention(), Duration::from_secs(60));
    assert_eq!(ARTIFACT_PREFIX, "mofa_");
    assert!(s.is_stale("mofa_tts_a.wav", Some(Duration::from_secs(61))));
    assert!(s.is_stale("mofa_tts_a.wav", Some(Duration::from_secs(60))));
    assert!(!s.is_stale("mofa_tts_a.wav", Some(Duration::from_secs(59))));
    assert!(!s.is_stale("important.txt", Some(Duration::from_secs(6000))));
    assert!(!s.is_stale("mofa_x", None));
    let zero = ArtifactSweeper::new(Some("/x".into()), "/d".into(), Duration::ZERO);
    assert_eq!(zero.dir(), "/x");
    assert!(zero.is_stale("mofa_x", Some(Duration::ZERO)));
}

#[test]
fn ambiguous_short_name_is_rejected() {
    let models = vec![
        ("qwen".to_string(), "ollama/qwen".to_string()),
        ("qwen".to_string(), "cloud/qwen".to_string()),
        ("gpt".to_string(), "openai/gpt".to_string()),
    ];
    let providers = vec!["ollama".to_string(), "openai".to_string()];
    match check_model_name(Some("qwen"), &providers, &models) {
        Err(EngineError::InvalidRequest(m)) => {
            assert_eq!(m, "model name 'qwen' is ambiguous; use one of: ollama/qwen, cloud/qwen")
        }
        _ => panic!("expected an ambiguity error"),
    }
    assert!(check_model_name(Some("gpt"), &providers, &models).is_ok());
    assert!(check_model_name(Some("ollama/qwen"), &providers, &models).is_ok());
    assert!(check_model_name(Some("cloud::qwen"), &providers, &models).is_ok());
    assert!(check_model_name(None, &providers, &models).is_ok());
    // A `/` prefix that is not a provider does not qualify the name.
    let shared = vec![("x/y".to_string(), "a".to_string()), ("x/y".to_string(), "b".to_string())];
    assert!(check_model_name(Some("x/y"), &providers, &shared).is_err());
}

#[test]
fn quality_verdict_needs_every_check() {
    let ok = vlm_check(true);
    assert_eq!(ok.name, "vlm_match");
    assert!(ok.passed);
    let bad = QualityCheck { name: "duration", passed: false, detail: "short".into() };
    assert!(all_passed(&[ok.clone()]));
    assert!(!all_passed(&[ok, bad]));
    assert!(all_passed(&[]));
    assert!(!vlm_check(false).passed);
    let streams = vec![
        StreamInfo { codec_type: Some("audio".into()), width: 0, height: 0 },
        StreamInfo { codec_type: Some("video".into()), width: 0, height: 720 },
    ];
    assert!(!has_video_stream(&streams));
    let good = vec![StreamInfo { codec_type: Some("video".into()), width: 1280, height: 720 }];
    assert!(has_video_stream(&good));
}
