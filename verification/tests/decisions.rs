use mofa_engine::catalog::{
    Capability, CostTier, ModelAvailability, ModelCard, ModelResidency,
};
use mofa_engine::engine::{
    check_input_path, eviction_protected_ids, first_subscribed_without_resident, has_resident_for,
    needs_input_check, warm_step, PendingPredictions, WarmSource, WarmStep, MAX_PENDING_PREDICTIONS,
};
use mofa_engine::kernel::{BackendType, EngineError, ModelInput, ModelStatus, ModelType};
use mofa_engine::runtime::backends::{
    audio_upload_name, chat_turns, ollama_model_info, required_text, tts_voice, OllamaBackend,
    OpenAiBackend,
};
use mofa_engine::runtime::engine::http_error;
use mofa_engine::quality_gate::frame_motion_sums;

fn card(id: &str, caps: Vec<Capability>, residency: ModelResidency) -> ModelCard {
    ModelCard {
        id: id.into(),
        provider: "p".into(),
        name: id.into(),
        capability: caps[0],
        capabilities: caps,
        cost_tier: CostTier::Free,
        availability: ModelAvailability::Configured,
        residency,
        context_window: 0,
        memory_estimate_bytes: 0,
        max_concurrency: None,
        reasoning_tier: None,
    }
}

fn input(text: Option<&str>, prompt: Option<&str>) -> ModelInput {
    ModelInput {
        text: text.map(String::from),
        file: None,
        base64: None,
        prompt: prompt.map(String::from),
        params: None,
    }
}

#[test]
fn pending_predictions_stay_bounded() {
    let mut pending = PendingPredictions::new();
    for i in 0..(MAX_PENDING_PREDICTIONS + 10) {
        pending.remember(format!("scope-{i}"), Capability::Tts);
    }
    assert_eq!(pending.confirm("scope-unknown", Some(Capability::Tts)), None);
    pending.remember("s".into(), Capability::Tts);
    assert_eq!(pending.confirm("s", None), None);
    assert_eq!(pending.confirm("s", Some(Capability::Chat)), Some(false));
    assert_eq!(pending.confirm("s", Some(Capability::Tts)), None);
    pending.remember("s".into(), Capability::Asr);
    pending.remember("s".into(), Capability::Tts);
    assert_eq!(pending.confirm("s", Some(Capability::Tts)), Some(true));
}

#[test]
fn warming_prefers_hint_then_subscription() {
    let cards = vec![
        card("chat", vec![Capability::Chat], ModelResidency::Loaded),
        card("tts", vec![Capability::Tts], ModelResidency::Unloaded),
        card("asr", vec![Capability::Asr], ModelResidency::Loading),
        card("cloud", vec![Capability::ImageGen], ModelResidency::Remote),
    ];
    assert!(has_resident_for(&cards, Capability::Chat));
    assert!(has_resident_for(&cards, Capability::ImageGen));
    assert!(!has_resident_for(&cards, Capability::Tts));
    let subscribed = vec![Capability::Tts, Capability::Chat, Capability::Asr];
    assert_eq!(first_subscribed_without_resident(&subscribed, &cards), Some(Capability::Asr));
    assert_eq!(first_subscribed_without_resident(&vec![Capability::Chat], &cards), None);
    assert_eq!(warm_step(Some("TTS"), Some(Capability::Asr)), WarmStep::Warm(Capability::Tts, WarmSource::Hint));
    assert_eq!(warm_step(Some("nope"), Some(Capability::Asr)), WarmStep::Warm(Capability::Asr, WarmSource::Subscription));
    assert_eq!(warm_step(None, None), WarmStep::ConsultHistory);
    assert_eq!(WarmSource::History.as_str(), "history");
}

#[test]
fn loading_and_subscribed_models_are_protected() {
    let cards = vec![
        card("chat", vec![Capability::Chat], ModelResidency::Loaded),
        card("tts", vec![Capability::Tts], ModelResidency::Loaded),
        card("asr", vec![Capability::Asr], ModelResidency::Loading),
        card("vlm", vec![Capability::Vlm, Capability::Chat], ModelResidency::Unloaded),
    ];
    assert_eq!(eviction_protected_ids(&cards, &vec![Capability::Tts]), vec!["tts", "asr"]);
    assert_eq!(eviction_protected_ids(&cards, &vec![]), vec!["asr"]);
}

#[test]
fn input_files_must_lie_under_a_root() {
    let roots = vec!["/data".to_string()];
    assert!(needs_input_check(&roots, Some("/data/a.wav")));
    assert!(!needs_input_check(&vec![], Some("/data/a.wav")));
    assert!(!needs_input_check(&roots, None));
    assert!(check_input_path(&roots, "a.wav", Some("/data/a.wav")).is_ok());
    match check_input_path(&roots, "x", Some("/database/a.wav")) {
        Err(EngineError::InvalidRequest(m)) => assert_eq!(m, "input_file 'x' is outside the allowed roots"),
        _ => panic!("a sibling directory is not under the root"),
    }
    match check_input_path(&roots, "gone", None) {
        Err(EngineError::InvalidRequest(m)) => assert_eq!(m, "input_file 'gone' cannot be resolved"),
        _ => panic!("an unresolvable path is refused"),
    }
}

#[test]
fn ollama_backend_registers_and_plans_chats() {
    let mut b = OllamaBackend::new("http://localhost:11434/");
    assert_eq!(b.base_url(), "http://localhost:11434");
    assert_eq!(b.backend_type(), BackendType::Ollama);
    assert!(b.supports_type(ModelType::Vlm));
    assert!(!b.supports_type(ModelType::Tts));
    let infos = b.register(&vec![("llama3:8b".to_string(), 42), ("mistral".to_string(), 7)]);
    assert_eq!(infos[0].id, "ollama:llama3");
    assert_eq!(infos[0].name, "llama3");
    assert_eq!(infos[0].memory_bytes, 42);
    assert_eq!(infos[1].id, "ollama:mistral");
    assert_eq!(ollama_model_info("a:b:c", 1).name, "a");
    let (name, turns) = b.chat_plan("ollama:llama3", &input(Some("hi"), Some("be brief"))).unwrap();
    assert_eq!(name, "llama3");
    assert_eq!(turns.len(), 2);
    assert_eq!(turns[0].role, "system");
    assert_eq!(turns[1].content, "hi");
    match b.chat_plan("ollama:llama3", &input(None, None)) {
        Err(EngineError::InvalidInput(m)) => assert_eq!(m, "text input required for LLM"),
        _ => panic!("text is required"),
    }
    assert!(matches!(b.chat_plan("ollama:nope", &input(Some("x"), None)), Err(EngineError::ModelNotFound(_))));
    b.load_model("ollama:llama3");
    b.unload_model("ollama:absent");
}

#[test]
fn openai_backend_defaults_and_plans() {
    let mut b = OpenAiBackend::new("https://api.openai.com/v1/", "sk");
    assert_eq!(b.base_url(), "https://api.openai.com/v1");
    let defaults = b.register_defaults();
    assert_eq!(defaults.len(), 5);
    assert_eq!(defaults[4].id, "openai:whisper-1");
    assert_eq!(defaults[4].model_type, ModelType::Asr);
    assert_eq!(defaults[0].status, ModelStatus::Available);
    assert_eq!(b.run_plan("openai:tts-1").unwrap(), ("tts-1".to_string(), ModelType::Tts));
    assert!(matches!(b.run_plan("openai:dall-e"), Err(EngineError::ModelNotFound(_))));
    b.load_model("openai:gpt-4o");
    assert_eq!(b.run_plan("openai:gpt-4o").unwrap().0, "gpt-4o");
    assert_eq!(chat_turns(&None, "q").len(), 1);
    assert!(matches!(required_text(&None, "text required for TTS"), Err(EngineError::InvalidInput(m)) if m == "text required for TTS"));
    assert_eq!(audio_upload_name("/x/a.wav"), "a.wav");
    assert_eq!(audio_upload_name(".."), "audio.wav");
}

#[test]
fn tts_voice_defaults_to_alloy() {
    assert_eq!(tts_voice(None), "alloy");
    assert_eq!(tts_voice(Some("nova".to_string())), "nova");
}

#[test]
fn http_error_maps_each_error_kind() {
    assert_eq!(http_error(&EngineError::ModelNotFound("m".into())), (404, "model_not_found"));
    assert_eq!(http_error(&EngineError::InvalidInput("x".into())), (400, "invalid_input"));
    assert_eq!(
        http_error(&EngineError::InsufficientMemory { need: 2, available: 1 }),
        (503, "insufficient_memory")
    );
    assert_eq!(http_error(&EngineError::BackendNotAvailable("b".into())), (503, "backend_unavailable"));
    assert_eq!(http_error(&EngineError::Timeout("t".into())), (500, "internal_error"));
}

#[test]
fn engine_error_messages() {
    assert_eq!(EngineError::ModelNotFound("qwen".into()).message(), "model not found: qwen");
    assert_eq!(
        EngineError::InsufficientMemory { need: 2048, available: 10 }.message(),
        "insufficient memory: need 2048 bytes, available 10 bytes"
    );
    assert_eq!(
        EngineError::ProviderError { provider: "ark".into(), detail: "boom".into() }.message(),
        "provider error (ark): boom"
    );
    assert_eq!(
        EngineError::MemoryPressure { need: 0, available: 7 }.message(),
        "memory pressure: need 0 bytes, available 7 bytes"
    );
    assert_eq!(EngineError::Config("bad".into()).message(), "configuration error: bad");
}

#[test]
fn frame_motion_sums_between_consecutive_frames() {
    // Three whole frames of two pixels and one stray byte.
    let raw = [10u8, 20, 15, 10, 15, 10, 99];
    assert_eq!(frame_motion_sums(&raw, 2), Some(vec![15, 0]));
    assert_eq!(frame_motion_sums(&raw[..3], 2), None);
    assert_eq!(frame_motion_sums(&raw, 0), None);
    assert_eq!(frame_motion_sums(&[0u8, 255], 1), Some(vec![255]));
}

#[test]
fn model_type_display_parses_back() {
    for t in [
        ModelType::Llm,
        ModelType::Tts,
        ModelType::Asr,
        ModelType::ImageGen,
        ModelType::VideoGen,
        ModelType::Vlm,
        ModelType::VoiceClone,
    ] {
        assert_eq!(ModelType::parse(t.as_str()).unwrap(), t);
        assert_eq!(ModelType::parse(&t.as_str().to_ascii_uppercase()).unwrap(), t);
    }
}
