use mofa_engine::runtime::engine::{
    duration_millis, engine_status, fallback_candidates, hint_target, idle_models, needs_load,
    parse_requested_type,
};
use mofa_engine::kernel::{
    BackendType, EngineError, ModelInfo, ModelPriority, ModelStatus, ModelType,
};
use mofa_engine::runtime::config::{
    default_host, default_idle_timeout_secs, default_ollama_url, default_openai_url, default_port, Discovery,
    EngineConfig, OllamaConfig,
};
use mofa_engine::runtime::memory_manager::MemoryManagerImpl;
use mofa_engine::runtime::preflight::PreflightManager;
use mofa_engine::runtime::scheduler::SmartScheduler;

fn make_model(id: &str, name: &str, mt: ModelType, bt: BackendType, status: ModelStatus) -> ModelInfo {
    ModelInfo {
        id: id.to_string(),
        name: name.to_string(),
        model_type: mt,
        backend: bt,
        status,
        memory_bytes: 1000,
        priority: ModelPriority::Normal,
    }
}

#[test]
fn test_select_by_name() {
    let s = SmartScheduler::new();
    let models = vec![make_model("a", "gpt-4o", ModelType::Llm, BackendType::OpenAi, ModelStatus::Available)];
    let id = s.select_model(None, Some("gpt-4o"), &models).unwrap();
    assert_eq!(id, "a");
}

#[test]
fn test_select_by_type_prefers_local() {
    let s = SmartScheduler::new();
    let models = vec![
        make_model("cloud", "gpt-4o", ModelType::Llm, BackendType::OpenAi, ModelStatus::Available),
        make_model("local", "qwen", ModelType::Llm, BackendType::Ollama, ModelStatus::Available),
    ];
    let id = s.select_model(Some(ModelType::Llm), None, &models).unwrap();
    assert_eq!(id, "local");
}

#[test]
fn test_select_by_type_prefers_loaded() {
    let s = SmartScheduler::new();
    let models = vec![
        make_model("a", "qwen", ModelType::Llm, BackendType::Ollama, ModelStatus::Available),
        make_model("b", "gpt-4o", ModelType::Llm, BackendType::OpenAi, ModelStatus::Loaded),
    ];
    let id = s.select_model(Some(ModelType::Llm), None, &models).unwrap();
    assert_eq!(id, "b");
}

#[test]
fn test_select_not_found() {
    let s = SmartScheduler::new();
    let models = vec![make_model("a", "tts-1", ModelType::Tts, BackendType::OpenAi, ModelStatus::Available)];
    let result = s.select_model(Some(ModelType::Asr), None, &models);
    match result {
        Err(EngineError::ModelNotFound(m)) => assert_eq!(m, "no model for type asr"),
        _ => panic!("expected model not found"),
    }
}

#[test]
fn select_by_name_ignores_ascii_case_and_reports_missing() {
    let s = SmartScheduler::new();
    let models = vec![make_model("a", "GPT-4o", ModelType::Llm, BackendType::OpenAi, ModelStatus::Available)];
    assert_eq!(s.select_model(Some(ModelType::Tts), Some("gpt-4O"), &models).unwrap(), "a");
    match s.select_model(None, Some("nope"), &models) {
        Err(EngineError::ModelNotFound(m)) => assert_eq!(m, "nope"),
        _ => panic!("expected model not found"),
    }
    match s.select_model(None, None, &models) {
        Err(EngineError::InvalidInput(m)) => assert_eq!(m, "must specify model type or model name"),
        _ => panic!("expected invalid input"),
    }
}

#[test]
fn select_falls_back_to_first_candidate() {
    let s = SmartScheduler::new();
    let models = vec![
        make_model("x", "tts", ModelType::Tts, BackendType::OpenAi, ModelStatus::Available),
        make_model("c1", "a", ModelType::Llm, BackendType::OpenAi, ModelStatus::Available),
        make_model("c2", "b", ModelType::Llm, BackendType::OpenAi, ModelStatus::Available),
    ];
    assert_eq!(s.select_model(Some(ModelType::Llm), None, &models).unwrap(), "c1");
}

#[test]
fn scheduler_without_history_predicts_nothing() {
    let mut s = SmartScheduler::new();
    s.subscribe("app", vec![ModelType::Llm, ModelType::Tts]);
    assert_eq!(s.predict_next(ModelType::Llm), None);
}

#[test]
fn preflight_predicts_after_three_observations() {
    let mut p = PreflightManager::new();
    p.record_transition(ModelType::Llm, ModelType::Tts);
    p.record_transition(ModelType::Llm, ModelType::Tts);
    assert_eq!(p.predict_next(ModelType::Llm), None);
    p.record_transition(ModelType::Llm, ModelType::Tts);
    assert_eq!(p.predict_next(ModelType::Llm), Some(ModelType::Tts));
    assert_eq!(p.transition_count(ModelType::Llm, ModelType::Tts), 3);
    assert_eq!(p.transition_count(ModelType::Tts, ModelType::Llm), 0);
}

#[test]
fn preflight_prefers_the_most_frequent_transition() {
    let mut p = PreflightManager::new();
    for _ in 0..3 {
        p.record_transition(ModelType::Llm, ModelType::Asr);
    }
    for _ in 0..5 {
        p.record_transition(ModelType::Llm, ModelType::Tts);
    }
    assert_eq!(p.predict_next(ModelType::Llm), Some(ModelType::Tts));
    assert_eq!(p.predict_next(ModelType::Asr), None);
}

#[test]
fn test_reserve_and_release() {
    let mut mm = MemoryManagerImpl::new(1024);
    assert_eq!(mm.total_memory(), 1024);
    assert_eq!(mm.available_memory(), 1024);

    mm.reserve("model_a", 256).unwrap();
    assert_eq!(mm.used_memory(), 256);
    assert_eq!(mm.available_memory(), 768);

    mm.reserve("model_b", 512).unwrap();
    assert_eq!(mm.used_memory(), 768);

    let freed = mm.release("model_a").unwrap();
    assert_eq!(freed, 256);
    assert_eq!(mm.used_memory(), 512);
}

#[test]
fn test_insufficient_memory() {
    let mut mm = MemoryManagerImpl::new(100);
    let result = mm.reserve("big_model", 200);
    match result {
        Err(EngineError::InsufficientMemory { need, available }) => {
            assert_eq!(need, 200);
            assert_eq!(available, 100);
        }
        _ => panic!("expected insufficient memory"),
    }
}

#[test]
fn test_lru_eviction() {
    let mut mm = MemoryManagerImpl::new(1000);
    mm.reserve("model_a", 400).unwrap();
    mm.reserve("model_b", 400).unwrap();
    // model_a is older, so it is evicted first.
    let evicted = mm.evict_for(500).unwrap();
    assert_eq!(evicted, vec!["model_a"]);
}

#[test]
fn test_resident_not_evicted() {
    let mut mm = MemoryManagerImpl::new(1000);
    mm.reserve("resident_model", 400).unwrap();
    mm.set_resident("resident_model", true);
    mm.reserve("normal_model", 400).unwrap();
    let evicted = mm.evict_for(500).unwrap();
    assert_eq!(evicted, vec!["normal_model"]);
}

#[test]
fn evict_for_reports_what_cannot_be_freed() {
    let mut mm = MemoryManagerImpl::new(1000);
    mm.reserve("pinned", 900).unwrap();
    mm.set_resident("pinned", true);
    match mm.evict_for(500) {
        Err(EngineError::InsufficientMemory { need, available }) => {
            assert_eq!(need, 500);
            assert_eq!(available, 100);
        }
        _ => panic!("expected insufficient memory"),
    }
    // Nothing needs evicting when the request already fits.
    assert_eq!(mm.evict_for(50).unwrap(), Vec::<String>::new());
}

#[test]
fn lru_order_lists_oldest_first() {
    let mut mm = MemoryManagerImpl::new(1000);
    mm.reserve("a", 1).unwrap();
    mm.reserve("b", 2).unwrap();
    mm.touch("a");
    assert_eq!(mm.lru_order(), vec![("b".to_string(), 2), ("a".to_string(), 1)]);
}

#[test]
fn old_config_defaults() {
    assert_eq!(default_port(), 8420);
    assert_eq!(default_host(), "0.0.0.0");
    assert_eq!(default_idle_timeout_secs(), 60);
    assert_eq!(default_ollama_url(), "http://localhost:11434");
    assert_eq!(default_openai_url(), "https://api.openai.com/v1");
    let c = EngineConfig::default();
    assert_eq!(c.port, 8420);
    assert!(c.backends.openai.is_none());
    assert_eq!(OllamaConfig::default().url, "http://localhost:11434");
}

#[test]
fn config_from_environment_adds_openai_with_key() {
    let c = EngineConfig::from_environment(Some("sk".into()));
    let o = c.backends.openai.unwrap();
    assert_eq!(o.api_key, "sk");
    assert_eq!(o.models, vec!["gpt-4o", "gpt-4o-mini", "tts-1", "whisper-1"]);
    assert!(EngineConfig::from_environment(None).backends.openai.is_none());
}

#[test]
fn memory_budget_from_megabytes() {
    let mut c = EngineConfig::default();
    c.memory_budget_mb = Some(2);
    assert_eq!(c.memory_budget_bytes(), 2 * 1024 * 1024);
}

#[test]
fn discovery_plan_uses_defaults_and_env_key() {
    let c = EngineConfig::default();
    let plan = Discovery::plan(&c, Some("env-key".into()));
    assert_eq!(plan.ollama_url, "http://localhost:11434");
    assert_eq!(plan.openai, Some(("https://api.openai.com/v1".to_string(), "env-key".to_string())));
    assert!(Discovery::plan(&c, None).openai.is_none());
}

#[test]
fn model_type_parsing() {
    assert_eq!(ModelType::parse("Image-Gen").unwrap(), ModelType::ImageGen);
    assert_eq!(ModelType::parse("voiceclone").unwrap(), ModelType::VoiceClone);
    assert_eq!(ModelType::parse("nope").unwrap_err(), "unknown model type: nope");
    assert_eq!(ModelType::VideoGen.as_str(), "video_gen");
    assert_eq!(BackendType::CpuOnnx.as_str(), "cpu_onnx");
    assert!(!BackendType::OpenAi.is_local());
}

#[test]
fn old_engine_decisions() {
    let models = vec![
        make_model("a", "qwen", ModelType::Llm, BackendType::Ollama, ModelStatus::Loaded),
        make_model("b", "gpt", ModelType::Llm, BackendType::OpenAi, ModelStatus::Available),
        make_model("c", "tts", ModelType::Tts, BackendType::OpenAi, ModelStatus::Running),
        make_model("d", "qwen2", ModelType::Llm, BackendType::Ollama, ModelStatus::Available),
    ];
    let status = engine_status(100, 40, 60, &models, &[BackendType::Ollama, BackendType::OpenAi]);
    assert_eq!(status.loaded_models.len(), 2);
    assert_eq!(status.loaded_models[1].id, "c");
    assert_eq!(status.backends[0].model_count, 2);
    assert_eq!(status.backends[1].model_count, 2);
    assert!(status.backends[1].healthy);

    let alts = fallback_candidates(&models, &models[0]);
    assert_eq!(alts.len(), 1);
    assert_eq!(alts[0].id, "b");

    assert_eq!(hint_target("tts"), (Some(ModelType::Tts), None));
    assert_eq!(hint_target("qwen"), (None, Some("qwen".to_string())));
    assert!(needs_load(ModelStatus::Available));
    assert!(!needs_load(ModelStatus::Running));
    assert_eq!(parse_requested_type(None).unwrap(), None);
    assert_eq!(parse_requested_type(Some("LLM")).unwrap(), Some(ModelType::Llm));
    match parse_requested_type(Some("x")) {
        Err(EngineError::InvalidInput(m)) => assert_eq!(m, "unknown model type: x"),
        _ => panic!("expected invalid input"),
    }
    let idle = idle_models(&[("a".to_string(), 70), ("b".to_string(), 10), ("c".to_string(), 60)], 60);
    assert_eq!(idle, vec!["a", "c"]);
    assert_eq!(duration_millis(5), 5);
    assert_eq!(duration_millis(u128::MAX), u64::MAX);
}
