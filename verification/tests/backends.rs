use mofa_engine::backends::liter_llm::{LiterEffort, LiterLLMProvider, Usage};
use mofa_engine::backends::local_asr::{asr_input_file, LocalAsrProvider};
use mofa_engine::backends::local_image_gen::{image_dimensions, LocalImageGenProvider};
use mofa_engine::backends::local_tts::LocalTtsProvider;
use mofa_engine::backends::local_video_gen::LocalVideoGenProvider;
use mofa_engine::backends::openai_compat::parse_data_url;
use mofa_engine::backends::system_tts::{choose_voice, SystemTtsProvider, Voice, SYSTEM_TTS_NAME};
use mofa_engine::backends::common::parse_size;
use mofa_engine::backends::cloud_video_gen::{
    resolve_api_key, resolve_base_url, VideoDialect,
};
use mofa_engine::catalog::{
    BackendFeature, Capability, CostTier, ModelId, ProviderKind, Reasoning, ReasoningEffort,
};
use mofa_engine::config::ModelDef;
use mofa_engine::kernel::EngineError;

fn model(name: &str, cap: &str) -> ModelDef {
    ModelDef {
        name: name.into(),
        capability: cap.into(),
        context_window: None,
        memory_mb: None,
        reasoning_tier: None,
    }
}

fn asr_models() -> Vec<ModelDef> {
    vec![ModelDef {
        name: "fixture".into(),
        capability: "asr".into(),
        context_window: None,
        memory_mb: Some(256),
        reasoning_tier: None,
    }]
}

fn img_models() -> Vec<ModelDef> {
    vec![ModelDef {
        name: "fixture".into(),
        capability: "image_gen".into(),
        context_window: None,
        memory_mb: Some(2048),
        reasoning_tier: None,
    }]
}

fn tts_models() -> Vec<ModelDef> {
    vec![ModelDef {
        name: "fixture".into(),
        capability: "tts".into(),
        context_window: None,
        memory_mb: Some(64),
        reasoning_tier: None,
    }]
}

fn video_models() -> Vec<ModelDef> {
    vec![ModelDef {
        name: "fixture".into(),
        capability: "video_gen".into(),
        context_window: None,
        memory_mb: Some(4096),
        reasoning_tier: None,
    }]
}

#[test]
fn kind_and_locality() {
    let p = LiterLLMProvider::new(
        "liter",
        Some("sk-test".into()),
        "",
        vec![model("openai/gpt-4o", "chat")],
        CostTier::Medium,
        None,
    )
    .unwrap();
    assert_eq!(p.kind(), ProviderKind::LiterLlm);
    // Cloud gateway: never treated as on-device.
    assert!(!p.kind().is_local());
}

#[test]
fn usage_split_falls_back_to_sum() {
    let (p, c, t) = LiterLLMProvider::split_usage(Some(Usage {
        prompt_tokens: 5,
        completion_tokens: 3,
        total_tokens: 0,
        ..Default::default()
    }));
    assert_eq!((p, c, t), (Some(5), Some(3), Some(8)));
    assert_eq!(LiterLLMProvider::split_usage(None), (None, None, None));
}

#[test]
fn effort_maps_to_liter_enum() {
    let mk = |e| Some(Reasoning { effort: e, visible: false });
    assert!(matches!(LiterLLMProvider::to_liter_effort(mk(ReasoningEffort::Low)), Some(LiterEffort::Low)));
    assert!(matches!(
        LiterLLMProvider::to_liter_effort(mk(ReasoningEffort::Medium)),
        Some(LiterEffort::Medium)
    ));
    assert!(matches!(LiterLLMProvider::to_liter_effort(mk(ReasoningEffort::High)), Some(LiterEffort::High)));
    assert!(LiterLLMProvider::to_liter_effort(None).is_none());
}

#[test]
fn usage_split_prefers_reported_total_and_truncates() {
    let (_, _, t) = LiterLLMProvider::split_usage(Some(Usage { prompt_tokens: 5, completion_tokens: 3, total_tokens: 20 }));
    assert_eq!(t, Some(20));
    let (p, _, _) = LiterLLMProvider::split_usage(Some(Usage {
        prompt_tokens: (1u64 << 32) + 7,
        completion_tokens: 0,
        total_tokens: 1,
    }));
    assert_eq!(p, Some(7));
}

#[test]
fn liter_check_call_routes_and_refuses() {
    let p = LiterLLMProvider::new(
        "liter",
        None,
        "",
        vec![model("openai/gpt-4o", "chat"), model("openai/tts", "tts")],
        CostTier::Medium,
        None,
    )
    .unwrap();
    assert_eq!(p.api_key(), "");
    assert_eq!(p.check_call("liter/openai/gpt-4o", None).unwrap(), "openai/gpt-4o");
    match p.check_call("liter/openai/gpt-4o", Some(Capability::Vlm)) {
        Err(EngineError::UnsupportedOperation(m)) => {
            assert_eq!(m, "provider 'liter' model 'openai/gpt-4o' does not support vlm")
        }
        _ => panic!("expected an unsupported operation"),
    }
    match p.check_call("liter/openai/tts", Some(Capability::Tts)) {
        Err(EngineError::UnsupportedOperation(m)) => {
            assert_eq!(m, "provider 'liter' does not support tts via liter-llm")
        }
        _ => panic!("expected an unsupported operation"),
    }
    assert_eq!(p.lifecycle_id("liter/openai/gpt-4o"), "liter/openai/gpt-4o");
}

#[test]
fn metadata_and_kind() {
    let p = LocalAsrProvider::new("local-asr", "sh", vec![], None, asr_models());
    assert_eq!(p.kind(), ProviderKind::LocalAsr);
    assert!(p.kind().is_local());
    assert_eq!(p.name(), "local-asr");
}

#[test]
fn resolve_args_appends_diarize_args_only_when_requested() {
    let p = LocalAsrProvider::new(
        "local-asr",
        "asr",
        vec!["{input}".into(), "--lang".into(), "{language}".into()],
        None,
        asr_models(),
    )
    .with_diarize_args(vec!["--diarize".into(), "--out".into(), "{output}".into()]);

    // Without diarization: base args only.
    let plain = p.resolve_args("clip.wav", "out.txt", "en", false);
    assert_eq!(plain, vec!["clip.wav", "--lang", "en"]);

    // With diarization: the diarize args are appended, placeholders substituted.
    let diarized = p.resolve_args("clip.wav", "out.txt", "en", true);
    assert_eq!(diarized, vec!["clip.wav", "--lang", "en", "--diarize", "--out", "out.txt"]);
}

#[test]
fn asr_output_file_detection_and_call_checks() {
    let p = LocalAsrProvider::new("local-asr", "sh", vec!["{input}".into()], None, asr_models());
    assert!(!p.uses_output_file());
    let q = p.with_diarize_args(vec!["{output}".into()]);
    assert!(q.uses_output_file());
    assert_eq!(q.check_call("local-asr/fixture", None).unwrap(), "fixture");
    match q.check_call("local-asr/fixture", Some(Capability::Chat)) {
        Err(EngineError::UnsupportedOperation(m)) => {
            assert_eq!(m, "provider 'local-asr' only supports asr, not chat")
        }
        _ => panic!("expected an unsupported operation"),
    }
    match q.check_call("local-asr/other", None) {
        Err(EngineError::UnsupportedOperation(m)) => {
            assert_eq!(m, "provider 'local-asr' model 'other' does not support asr")
        }
        _ => panic!("expected an unsupported operation"),
    }
}

#[test]
fn local_image_gen_metadata_and_defaults() {
    let p = LocalImageGenProvider::new("local-sd", "sh", vec![], None, None, img_models());
    assert_eq!(p.kind(), ProviderKind::LocalImageGen);
    assert!(p.kind().is_local());
    assert_eq!(p.output_format(), "png");
}

#[test]
fn local_image_gen_resolve_args_substitutes_all_placeholders() {
    let p = LocalImageGenProvider::new(
        "local-sd",
        "sd",
        vec![
            "--prompt".into(),
            "{prompt}".into(),
            "--neg".into(),
            "{negative_prompt}".into(),
            "-W".into(),
            "{width}".into(),
            "-H".into(),
            "{height}".into(),
            "-o".into(),
            "{output}".into(),
        ],
        None,
        None,
        img_models(),
    );
    let args = p.resolve_args("a cat", "/tmp/o.png", "blurry", 1024, 768);
    assert_eq!(
        args,
        vec!["--prompt", "a cat", "--neg", "blurry", "-W", "1024", "-H", "768", "-o", "/tmp/o.png"]
    );
}

#[test]
fn parse_size_and_dimensions() {
    assert_eq!(parse_size("1024x768"), Some((1024, 768)));
    assert_eq!(parse_size("512X512"), Some((512, 512)));
    assert_eq!(parse_size(" 640 x 480 "), Some((640, 480)));
    assert_eq!(parse_size("bad"), None);
    assert_eq!(parse_size("0x100"), None);
    assert_eq!(parse_size("99999999999x1"), None);
    assert_eq!(image_dimensions(Some("640x480"), None, None), (640, 480));
    assert_eq!(image_dimensions(None, Some(256), Some(128)), (256, 128));
    assert_eq!(image_dimensions(Some("bad"), Some(0), None), (1024, 1024));
    assert_eq!(image_dimensions(None, None, None), (1024, 1024));
}

#[test]
fn image_prompt_and_artifact_name() {
    let p = LocalImageGenProvider::new("local-sd", "sh", vec![], Some("jpg".into()), None, img_models());
    assert_eq!(p.artifact_name("abc"), "mofa_img_abc.jpg");
    assert_eq!(LocalImageGenProvider::prompt(Some("a neuron".into()), None).unwrap(), "a neuron");
    assert_eq!(LocalImageGenProvider::prompt(None, Some("from params".into())).unwrap(), "from params");
    match LocalImageGenProvider::prompt(Some("   ".into()), Some("ignored".into())) {
        Err(EngineError::InvalidRequest(m)) => assert_eq!(m, "image_gen requires a prompt"),
        _ => panic!("expected an invalid request"),
    }
}

#[test]
fn local_tts_metadata_and_defaults() {
    let p = LocalTtsProvider::new("local-tts", "sh", vec![], None, None, tts_models());
    assert_eq!(p.kind(), ProviderKind::LocalTts);
    assert_eq!(p.name(), "local-tts");
    assert_eq!(p.output_format(), "wav");
    assert!(p.features().contains(&BackendFeature::Load));
}

#[test]
fn tts_args_and_text_file() {
    let p = LocalTtsProvider::new(
        "local-tts",
        "say",
        vec!["-f".into(), "{text_file}".into(), "-o".into(), "{output}".into(), "{text}".into()],
        Some("".into()),
        None,
        tts_models(),
    );
    assert_eq!(p.output_format(), "wav");
    assert!(p.needs_text_file());
    assert_eq!(
        p.resolve_args("hi", "/tmp/t.txt", "/tmp/o.wav"),
        vec!["-f", "/tmp/t.txt", "-o", "/tmp/o.wav", "hi"]
    );
    assert_eq!(p.text_file_name("u1"), "mofa_tts_u1.txt");
    assert_eq!(p.artifact_name("u1"), "mofa_tts_u1.wav");
    match LocalTtsProvider::text(None, None) {
        Err(EngineError::InvalidRequest(m)) => assert_eq!(m, "TTS requires text input"),
        _ => panic!("expected an invalid request"),
    }
}

#[test]
fn local_video_gen_metadata_and_defaults() {
    let p = LocalVideoGenProvider::new("local-video", "sh", vec![], None, None, video_models());
    assert_eq!(p.kind(), ProviderKind::LocalVideoGen);
    assert!(p.kind().is_local());
    assert_eq!(p.output_format(), "mp4");
}

#[test]
fn local_video_gen_resolve_args_substitutes_all_placeholders() {
    let p = LocalVideoGenProvider::new(
        "local-video",
        "gen",
        vec![
            "--prompt".into(),
            "{prompt}".into(),
            "-W".into(),
            "{width}".into(),
            "-H".into(),
            "{height}".into(),
            "--secs".into(),
            "{seconds}".into(),
            "--fps".into(),
            "{fps}".into(),
            "-o".into(),
            "{output}".into(),
        ],
        None,
        None,
        video_models(),
    );
    let args = p.resolve_args("a rocket", "/tmp/o.mp4", "", 512, 512, 4, 16);
    assert_eq!(
        args,
        vec!["--prompt", "a rocket", "-W", "512", "-H", "512", "--secs", "4", "--fps", "16", "-o", "/tmp/o.mp4"]
    );
}

#[test]
fn dimensions_and_positive_params() {
    assert_eq!(LocalVideoGenProvider::dimensions(Some("640x480"), None, None), (640, 480));
    assert_eq!(LocalVideoGenProvider::dimensions(None, Some(256), Some(128)), (256, 128));
    assert_eq!(LocalVideoGenProvider::dimensions(None, None, None), (512, 512));
    assert_eq!(LocalVideoGenProvider::positive_u32(Some(0)), None);
    assert_eq!(LocalVideoGenProvider::positive_u32(Some(24)), Some(24));
    assert_eq!(LocalVideoGenProvider::positive_u32(Some(4294967296)), None);
    assert_eq!(LocalVideoGenProvider::positive_u32(Some(4294967295)), Some(4294967295));
    assert_eq!(LocalVideoGenProvider::seconds(None), 4);
    assert_eq!(LocalVideoGenProvider::fps(Some(30)), 30);
}

#[test]
fn model_id_parse_accepts_old_and_new_format() {
    assert_eq!(ModelId::name("ollama/llama3:8b"), "llama3:8b");
    assert_eq!(ModelId::name("ollama::llama3:8b"), "llama3:8b");
}

#[test]
fn model_id_edge_cases() {
    assert_eq!(ModelId::name("liter/openai/gpt-4o"), "openai/gpt-4o");
    assert_eq!(ModelId::name("bare"), "bare");
    assert_eq!(ModelId::canonical("local-asr", "fixture"), "local-asr/fixture");
}

#[test]
fn parse_data_url_splits_header_and_payload() {
    let (mime, is_base64, payload) = parse_data_url("data:image/png;base64,aGVsbG8=").unwrap();
    assert_eq!(mime, "image/png");
    assert!(is_base64);
    assert_eq!(payload, "aGVsbG8=");

    // No mime: image/png by default; no `;base64` marker: not base64.
    let (mime, is_base64, payload) = parse_data_url("data:,abc").unwrap();
    assert_eq!(mime, "image/png");
    assert!(!is_base64);
    assert_eq!(payload, "abc");

    assert!(parse_data_url("https://example.com/x.png").is_none());
    assert!(parse_data_url("data:nocomma").is_none());
}

#[test]
fn parse_data_url_base64_marker_ignores_case() {
    let (mime, is_base64, payload) = parse_data_url("data:image/jpeg;BASE64,xx,yy").unwrap();
    assert_eq!(mime, "image/jpeg");
    assert!(is_base64);
    assert_eq!(payload, "xx,yy");
}

#[test]
fn detects_a_voice_on_this_platform() {
    let p = SystemTtsProvider::new(None, Voice::Unavailable);
    assert_eq!(p.kind(), ProviderKind::LocalTts);
    assert_eq!(p.name(), SYSTEM_TTS_NAME);
}

#[test]
fn system_voice_choice_and_formats() {
    assert_eq!(choose_voice(true, true, true, true), Voice::MacSay);
    assert_eq!(choose_voice(false, true, false, true), Voice::Espeak);
    assert_eq!(choose_voice(true, false, false, false), Voice::Unavailable);
    let p = SystemTtsProvider::new(None, Voice::Espeak);
    assert!(p.is_available());
    assert_eq!(p.native_extension(), Some("wav"));
    assert_eq!(p.model_id(), "system-tts/system");
    assert_eq!(SystemTtsProvider::wanted_format(Some("MP3")), "mp3");
    assert_eq!(SystemTtsProvider::wanted_format(Some("")), "wav");
    assert_eq!(SystemTtsProvider::wanted_format(None), "wav");
    assert!(p.check_call(None).is_ok());
    match p.check_call(Some(Capability::Chat)) {
        Err(EngineError::UnsupportedOperation(m)) => {
            assert_eq!(m, "provider 'system-tts' only supports tts, not chat")
        }
        _ => panic!("expected an unsupported operation"),
    }
}

#[test]
fn cloud_video_dialects_and_urls() {
    assert_eq!(VideoDialect::from_str_loose("  AGNES "), VideoDialect::Agnes);
    assert_eq!(VideoDialect::from_str_loose(""), VideoDialect::Ark);
    assert_eq!(VideoDialect::Ark.api_key_env(), "ARK_API_KEY");
    assert_eq!(VideoDialect::Agnes.api_key_env(), "AGNES_API_KEY");
    assert_eq!(resolve_base_url(VideoDialect::Ark, ""), "https://ark.cn-beijing.volces.com/api/v3");
    assert_eq!(resolve_base_url(VideoDialect::Agnes, "https://x.example/v1//"), "https://x.example/v1");
    assert_eq!(resolve_api_key(Some("".into()), Some("env".into())), "env");
    assert_eq!(resolve_api_key(Some("k".into()), Some("env".into())), "k");
    assert_eq!(resolve_api_key(None, None), "");
}

#[test]
fn capability_names_round_trip() {
    for c in [
        Capability::Chat,
        Capability::Tts,
        Capability::Asr,
        Capability::ImageGen,
        Capability::ImageEdit,
        Capability::Vlm,
        Capability::VideoGen,
        Capability::MusicGen,
        Capability::Embedding,
    ] {
        assert_eq!(Capability::from_str_loose(c.as_str()), Some(c));
    }
    assert_eq!(Capability::from_str_loose("CHAT"), Some(Capability::Chat));
    assert_eq!(Capability::from_str_loose("speech"), None);
    assert_eq!(ReasoningEffort::from_str_loose("High"), Some(ReasoningEffort::High));
    assert_eq!(ReasoningEffort::from_str_loose("max"), None);
}

#[test]
fn asr_input_file_must_be_present() {
    assert!(matches!(asr_input_file(None), Err(EngineError::InvalidRequest(m)) if m == "ASR requires input_file"));
    assert!(matches!(asr_input_file(Some(String::new())), Err(EngineError::InvalidRequest(_))));
    assert_eq!(asr_input_file(Some("a.wav".into())).unwrap(), "a.wav");
}

#[test]
fn asr_transcript_outcomes() {
    let p = LocalAsrProvider::new("local-asr", "funasr", vec![], None, asr_models());
    assert_eq!(p.transcript_outcome(None, true, "exit 0", "", Ok("  hello world \n".into())).unwrap(), "hello world");
    assert!(matches!(
        p.transcript_outcome(None, false, "exit status: 2", " boom \n", Ok("x".into())),
        Err(EngineError::ProviderError { provider, detail })
            if provider == "local-asr" && detail == "ASR command exited with exit status: 2: boom"
    ));
    assert!(matches!(
        p.transcript_outcome(None, true, "", "", Ok("   ".into())),
        Err(EngineError::ProviderError { detail, .. }) if detail == "ASR command produced no transcript"
    ));
    assert!(matches!(
        p.transcript_outcome(None, true, "", "", Err("gone".into())),
        Err(EngineError::ProviderError { detail, .. }) if detail == "cannot read ASR transcript: gone"
    ));
    assert!(matches!(
        p.transcript_outcome(Some("not found".into()), true, "", "", Ok("x".into())),
        Err(EngineError::ProviderError { detail, .. }) if detail == "failed to spawn 'funasr': not found"
    ));
}
