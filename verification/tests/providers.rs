use mofa_engine::backends::cloud_music_gen::{
    build_submit_body, parse_clip_state, poll_interval_secs, submit_path, track_label, ClipState,
    CloudMusicGenProvider, MusicPoll,
};
use mofa_engine::backends::cloud_video_gen::{
    agnes_body, agnes_dimensions, ark_body, command_suffix, parse_task_state, task_id,
    CloudVideoGenProvider, VideoDialect, VideoPoll, VideoTaskState, DEFAULT_AGNES_BASE_URL,
    DEFAULT_ARK_BASE_URL,
};
use mofa_engine::backends::common::positive_u32;
use mofa_engine::backends::liter_llm::{
    detail_tier, image_prompt, inline_image_url, message_role, passthrough_image, vlm_parts,
    DetailTier, LiterPart, LiterRole,
};
use mofa_engine::backends::ollama::{
    classify_image, file_image_payload, generation_limits, health_of_status, keep_alive,
    lifecycle_route, present_model_names, route_path, ImageRef, LifecycleRoute, NumberParam,
    OllamaProvider,
};
use mofa_engine::backends::openai_compat::{
    decode_data_image, embedding_inputs, embedding_order, embedding_tokens, image_mime,
    max_tokens_option, upload_file_name, EmbedInput, HealthPlan, ImageSource, OpenAiCompatProvider,
};
use mofa_engine::backends::streaming::{
    is_blank_line, sse_data, sse_event, sse_frame_len, take_frame, take_line, SseData,
    StreamTotals, TokenCounts,
};
use mofa_engine::backends::video_task::{TaskStep, VideoTaskProvider};
use mofa_engine::catalog::{
    BackendFeature, BackendHealth, Capability, CostTier, ModelAvailability, ModelResidency,
    ProviderKind, ReasoningEffort,
};
use mofa_engine::config::ModelDef;
use mofa_engine::kernel::EngineError;

fn def(name: &str, capability: &str, tier: Option<&str>) -> ModelDef {
    ModelDef {
        name: name.into(),
        capability: capability.into(),
        reasoning_tier: tier.map(String::from),
        ..Default::default()
    }
}

fn video_models() -> Vec<ModelDef> {
    vec![def("seedance-1-0-pro", "video_gen", None)]
}

fn music_models() -> Vec<ModelDef> {
    vec![def("suno-v4", "music_gen", None)]
}

/// One NDJSON line as the Ollama stream reader decodes it: done flag, token
/// counts and message content; `None` for blank or unparseable lines.
fn parse_stream_line(line: &[u8]) -> Option<(bool, Option<u32>, Option<u32>, Option<String>)> {
    if is_blank_line(line) {
        return None;
    }
    let v: serde_json::Value = serde_json::from_slice(line).ok()?;
    if !v.is_object() {
        return None;
    }
    Some((
        v.get("done").and_then(|d| d.as_bool()).unwrap_or(false),
        v.get("prompt_eval_count").and_then(|x| x.as_u64()).map(|x| x as u32),
        v.get("eval_count").and_then(|x| x.as_u64()).map(|x| x as u32),
        v.pointer("/message/content").and_then(|c| c.as_str()).map(String::from),
    ))
}

/// One SSE chunk as the OpenAI-compatible stream reader decodes it.
enum Event {
    Chunk(Option<TokenCounts>, Option<String>),
    Done,
}

fn parse_sse_event(block: &[u8]) -> Option<Event> {
    match sse_event(block)? {
        SseData::Done => Some(Event::Done),
        SseData::Payload(data) => {
            let v: serde_json::Value = serde_json::from_str(&data).ok()?;
            if !v.is_object() {
                return None;
            }
            let usage = v.get("usage").filter(|u| u.is_object()).map(|u| TokenCounts {
                prompt: u.get("prompt_tokens").and_then(|x| x.as_u64()).map(|x| x as u32),
                completion: u.get("completion_tokens").and_then(|x| x.as_u64()).map(|x| x as u32),
                total: u.get("total_tokens").and_then(|x| x.as_u64()).map(|x| x as u32),
            });
            let content = v
                .pointer("/choices/0/delta/content")
                .and_then(|c| c.as_str())
                .map(String::from);
            Some(Event::Chunk(usage, content))
        }
        _ => None,
    }
}

fn json(text: &str) -> serde_json::Value {
    serde_json::from_str(text).unwrap()
}

/// A polled cloud-video task as the provider reads it.
fn task_state(body: &serde_json::Value) -> VideoTaskState {
    let status = body.get("status").and_then(|v| v.as_str()).map(String::from);
    let url = body
        .get("content")
        .and_then(|c| c.get("video_url"))
        .or_else(|| body.get("video_url"))
        .or_else(|| body.get("url"))
        .or_else(|| body.get("metadata").and_then(|m| m.get("url")))
        .and_then(|v| v.as_str())
        .map(String::from);
    let reason = body
        .get("error")
        .and_then(|e| e.get("message"))
        .or_else(|| body.get("metadata").and_then(|m| m.get("message")))
        .and_then(|v| v.as_str())
        .map(String::from);
    parse_task_state(status, url, reason)
}

// ----- Ollama ---------------------------------------------------------------------

#[test]
fn provider_metadata() {
    let p = OllamaProvider::new("test-ollama", "http://localhost:11434", &[]);
    assert_eq!(p.kind(), ProviderKind::Ollama);
    assert_eq!(p.name(), "test-ollama");
    assert!(p.features().contains(&BackendFeature::Discovery));
}

#[test]
fn config_reasoning_tiers_are_parsed_and_filtered() {
    let models = vec![
        def("deepseek-r1:8b", "chat", Some("high")),
        def("qwen3:4b", "chat", Some("low")),
        def("llama3:8b", "chat", None),
        def("mystery:1b", "chat", Some("not-a-tier")),
    ];
    let p = OllamaProvider::new("ollama", "http://localhost:11434", &models);
    assert_eq!(p.reasoning_tier("deepseek-r1:8b"), Some(ReasoningEffort::High));
    assert_eq!(p.reasoning_tier("qwen3:4b"), Some(ReasoningEffort::Low));
    assert_eq!(p.reasoning_tier("llama3:8b"), None);
    assert_eq!(p.reasoning_tier("mystery:1b"), None);
    assert_eq!(p.reasoning_tier_count(), 2);
}

#[test]
fn later_tier_override_replaces_earlier() {
    let models = vec![def("m", "chat", Some("low")), def("m", "chat", Some("HIGH"))];
    let p = OllamaProvider::new("ollama", "http://h", &models);
    assert_eq!(p.reasoning_tier("m"), Some(ReasoningEffort::High));
    assert_eq!(p.reasoning_tier_count(), 1);
}

#[test]
fn ndjson_stream_lines_accumulate_text_and_tokens() {
    let lines: Vec<&[u8]> = vec![
        br#"{"message":{"role":"assistant","content":"He"},"done":false}"#,
        b"",
        br#"{"message":{"role":"assistant","content":"llo"},"done":false}"#,
        br#"{"message":{"role":"assistant","content":""},"done":false}"#,
        br#"{"message":{"role":"assistant","content":"!"},"done":false}"#,
        br#"{"done":true,"eval_count":3,"prompt_eval_count":5}"#,
    ];
    let mut totals = StreamTotals::new();
    let mut deltas = Vec::new();
    for line in lines {
        if let Some((done, prompt, eval, content)) = parse_stream_line(line) {
            if let Some(delta) = totals.apply_line(done, prompt, eval, content) {
                deltas.push(delta);
            }
        }
    }
    assert_eq!(deltas, vec!["He", "llo", "!"]);
    assert_eq!(totals.text, "Hello!");
    assert_eq!(totals.prompt_tokens, Some(5));
    assert_eq!(totals.completion_tokens, Some(3));
    assert_eq!(totals.tokens_used(), Some(8));
}

#[test]
fn parse_stream_line_ignores_blank_and_garbage() {
    assert!(parse_stream_line(b"").is_none());
    assert!(parse_stream_line(b"   \n").is_none());
    assert!(parse_stream_line(b"not json").is_none());
}

#[test]
fn ndjson_lines_are_taken_off_the_buffer() {
    let mut buf = b"{\"a\":1}\n{\"b\"".to_vec();
    assert_eq!(take_line(&mut buf), Some(b"{\"a\":1}\n".to_vec()));
    assert_eq!(buf, b"{\"b\"".to_vec());
    assert_eq!(take_line(&mut buf), None);
    assert_eq!(buf, b"{\"b\"".to_vec());
    assert!(is_blank_line(b" \t\r\n\x0c"));
    assert!(!is_blank_line(b" x "));
}

#[test]
fn ollama_tags_are_typed_by_name() {
    let models = vec![def("deepseek-r1:8b", "chat", Some("high"))];
    let p = OllamaProvider::new("ollama", "http://localhost:11434", &models);
    let loaded = vec!["llava:7b".to_string()];
    let card = p.discovered(Some("llava:7b".into()), None, Some(4_000), &loaded).unwrap();
    assert_eq!(card.id, "ollama/llava:7b");
    assert_eq!(card.capability, Capability::Vlm);
    assert_eq!(card.capabilities, vec![Capability::Vlm, Capability::Chat]);
    assert_eq!(card.residency, ModelResidency::Loaded);
    assert_eq!(card.memory_estimate_bytes, 4_000);
    assert_eq!(card.context_window, 4096);
    assert_eq!(card.cost_tier, CostTier::Free);
    assert_eq!(card.availability, ModelAvailability::Discovered);
    let embed = p.discovered(None, Some("Nomic-Embed-Text".into()), None, &loaded).unwrap();
    assert_eq!(embed.capability, Capability::Embedding);
    assert_eq!(embed.residency, ModelResidency::Unloaded);
    assert_eq!(embed.memory_estimate_bytes, 0);
    let flux = p.discovered(Some("flux-schnell".into()), None, None, &loaded).unwrap();
    assert_eq!(flux.capability, Capability::ImageGen);
    let chat = p.discovered(Some("deepseek-r1:8b".into()), None, None, &loaded).unwrap();
    assert_eq!(chat.capability, Capability::Chat);
    assert_eq!(chat.reasoning_tier, Some(ReasoningEffort::High));
    assert!(p.discovered(Some("gpt-oss:120b-cloud".into()), None, None, &loaded).is_none());
    assert!(p.discovered(Some("qwen3:CLOUD".into()), None, None, &loaded).is_none());
    assert!(p.discovered(None, None, Some(1), &loaded).is_none());
    let names = present_model_names(&vec![
        (Some("a".to_string()), Some("x".to_string())),
        (None, Some("b".to_string())),
        (None, None),
    ]);
    assert_eq!(names, vec!["a", "b"]);
}

#[test]
fn ollama_lifecycle_routes_and_results() {
    let p = OllamaProvider::new("ollama", "http://localhost:11434/", &[]);
    assert_eq!(lifecycle_route("SDXL-turbo"), LifecycleRoute::Untouched);
    assert_eq!(lifecycle_route("mxbai-embed-large"), LifecycleRoute::Embed);
    assert_eq!(lifecycle_route("llama3:8b"), LifecycleRoute::Chat);
    assert_eq!(route_path(LifecycleRoute::Embed), Some("api/embed"));
    assert_eq!(route_path(LifecycleRoute::Chat), Some("api/chat"));
    assert_eq!(route_path(LifecycleRoute::Untouched), None);
    assert_eq!(keep_alive(true), -1);
    assert_eq!(keep_alive(false), 0);
    let loaded = p.lifecycle_result("ollama::llama3:8b", true, LifecycleRoute::Chat);
    assert_eq!(loaded.model_id, "ollama/llama3:8b");
    assert_eq!(loaded.residency, ModelResidency::Loaded);
    assert_eq!(loaded.memory_bytes, None);
    assert!(loaded.changed);
    let unloaded = p.lifecycle_result("ollama/llama3:8b", false, LifecycleRoute::Chat);
    assert_eq!(unloaded.memory_bytes, Some(0));
    let skipped = p.lifecycle_result("ollama/flux", false, LifecycleRoute::Untouched);
    assert_eq!(skipped.residency, ModelResidency::Unloaded);
    assert!(!skipped.changed);
    assert_eq!(p.endpoint("api/tags"), "http://localhost:11434//api/tags");
}

#[test]
fn ollama_health_options_and_images() {
    assert_eq!(health_of_status(200), BackendHealth::Healthy);
    assert_eq!(health_of_status(503), BackendHealth::Degraded);
    assert_eq!(health_of_status(404), BackendHealth::Unavailable);
    assert_eq!(
        generation_limits(NumberParam::Missing, NumberParam::Missing, NumberParam::Missing),
        (32768, 4096)
    );
    assert_eq!(
        generation_limits(NumberParam::Unsigned(8192), NumberParam::Missing, NumberParam::Unsigned(512)),
        (8192, 512)
    );
    assert_eq!(
        generation_limits(NumberParam::Other, NumberParam::Other, NumberParam::Unsigned(512)),
        (32768, 4096)
    );
    assert_eq!(
        generation_limits(NumberParam::Unsigned((1u64 << 32) + 7), NumberParam::Unsigned(100), NumberParam::Missing),
        (7, 100)
    );
    assert_eq!(classify_image("data:image/png;base64,QUJD"), ImageRef::Inline("QUJD".into()));
    assert_eq!(classify_image("data:image/png"), ImageRef::NoPayload);
    assert_eq!(classify_image("https://x/y.png"), ImageRef::Remote);
    assert_eq!(classify_image("/tmp/y.png"), ImageRef::File);
    assert_eq!(file_image_payload(b"hello"), "aGVsbG8=");
}

// ----- OpenAI-compatible -------------------------------------------------------------

#[test]
fn kind_is_openai_compat() {
    let p = OpenAiCompatProvider::with_output_dir("x", "https://example.com", "key", vec![], CostTier::Low, None, "/tmp/mofa_artifacts".into());
    assert_eq!(p.kind(), ProviderKind::OpenAiCompatible);
    assert_eq!(p.name(), "x");
}

#[test]
fn sse_events_accumulate_text_and_usage() {
    let blocks: Vec<&[u8]> = vec![
        br#"data: {"choices":[{"delta":{"role":"assistant","content":"He"}}]}"#,
        br#"data: {"choices":[{"delta":{"content":"llo"}}]}"#,
        br#"data: {"choices":[{"delta":{"content":""}}]}"#,
        br#"data: {"choices":[{"delta":{}}],"usage":{"prompt_tokens":5,"completion_tokens":3,"total_tokens":8}}"#,
        b"data: [DONE]",
    ];
    let mut totals = StreamTotals::new();
    let mut deltas = Vec::new();
    for block in blocks {
        match parse_sse_event(block) {
            Some(Event::Chunk(usage, content)) => {
                if let Some(delta) = totals.apply_chunk(usage, content) {
                    deltas.push(delta);
                }
            }
            Some(Event::Done) | None => {}
        }
    }
    assert_eq!(deltas, vec!["He", "llo"]);
    assert_eq!(totals.text, "Hello");
    assert_eq!(totals.prompt_tokens, Some(5));
    assert_eq!(totals.completion_tokens, Some(3));
    assert_eq!(totals.total_tokens, Some(8));
    assert_eq!(totals.tokens_used(), Some(8));
}

#[test]
fn parse_sse_event_handles_done_blank_and_garbage() {
    assert!(matches!(parse_sse_event(b"data: [DONE]"), Some(Event::Done)));
    assert!(parse_sse_event(b"").is_none());
    assert!(parse_sse_event(b": keep-alive comment").is_none());
    assert!(parse_sse_event(b"data: not json").is_none());
    assert_eq!(sse_event(b"data: not json"), Some(SseData::Payload("not json".into())));
    assert_eq!(sse_event(&[0xff, 0xfe]), None);
}

#[test]
fn sse_frame_len_detects_lf_and_crlf_delimiters() {
    assert_eq!(sse_frame_len(b"data: a\n\nrest"), Some(9));
    assert_eq!(sse_frame_len(b"data: a\r\n\r\nrest"), Some(11));
    assert_eq!(sse_frame_len(b"data: a\n"), None);
}

#[test]
fn sse_frames_are_taken_off_the_buffer() {
    let mut buf = b"data: a\n\ndata: b".to_vec();
    assert_eq!(take_frame(&mut buf), Some(b"data: a\n\n".to_vec()));
    assert_eq!(buf, b"data: b".to_vec());
    assert_eq!(take_frame(&mut buf), None);
    assert_eq!(sse_data("event: x\r\ndata:a\r\ndata:  b\r\n: note\n"), "a\n b");
    assert_eq!(sse_data("data:\ndata: x"), "x");
    assert_eq!(sse_data("data: tail\r"), "tail\r");
}

#[test]
fn embedding_inputs_prefers_params_then_messages() {
    let contents = vec!["from message".to_string()];
    let listed = EmbedInput::List(vec![Some("a".into()), Some("b".into()), Some("".into())]);
    assert_eq!(embedding_inputs(&listed, &contents), vec!["a", "b"]);
    assert_eq!(embedding_inputs(&EmbedInput::Text("solo".into()), &contents), vec!["solo"]);
    assert_eq!(embedding_inputs(&EmbedInput::Missing, &contents), vec!["from message"]);
    assert!(embedding_inputs(&EmbedInput::Missing, &Vec::new()).is_empty());
}

#[test]
fn embedding_inputs_fall_back_past_empty_params() {
    let contents = vec!["  ".to_string(), "x".to_string()];
    assert_eq!(embedding_inputs(&EmbedInput::Text("".into()), &contents), vec!["x"]);
    assert_eq!(embedding_inputs(&EmbedInput::List(vec![None, Some("".into())]), &contents), vec!["x"]);
    assert_eq!(embedding_inputs(&EmbedInput::Other, &contents), vec!["x"]);
}

#[test]
fn parse_sse_event_joins_multiple_data_lines() {
    let block = b"data: {\"choices\":[{\"delta\":\ndata: {\"content\":\"hi\"}}]}";
    let Some(Event::Chunk(_, content)) = parse_sse_event(block) else {
        panic!("expected a parsed chunk from joined data lines");
    };
    assert_eq!(content, Some("hi".to_string()));
}

#[test]
fn embedding_rows_follow_their_indices() {
    assert_eq!(embedding_order(&vec![Some(2), Some(0), Some(1)]), vec![1, 2, 0]);
    assert_eq!(embedding_order(&vec![Some(1), Some(1), Some(0)]), vec![2, 0, 1]);
    assert_eq!(embedding_order(&vec![Some(1), None, Some(0)]), vec![0, 1, 2]);
    assert_eq!(embedding_order(&vec![]), Vec::<usize>::new());
    let counts = TokenCounts { prompt: Some(7), completion: None, total: None };
    assert_eq!(embedding_tokens(Some(counts)), (Some(7), Some(7)));
    assert_eq!(embedding_tokens(None), (None, None));
    assert_eq!(max_tokens_option(Some((1u64 << 32) + 3)), Some(3));
}

#[test]
fn compat_cards_routes_and_health() {
    let models = vec![
        ModelDef { name: "gpt".into(), capability: "chat".into(), memory_mb: Some(2), reasoning_tier: Some("medium".into()), ..Default::default() },
        def("vision", "vlm", None),
        def("junk", "telepathy", None),
    ];
    let p = OpenAiCompatProvider::with_output_dir("oa", "https://api", "", models, CostTier::Medium, Some(" ".into()), "/tmp/mofa_artifacts".into());
    assert_eq!(p.output_dir(), "/tmp/mofa_artifacts");
    let cards = p.discover();
    assert_eq!(cards.len(), 2);
    assert_eq!(cards[0].id, "oa/gpt");
    assert_eq!(cards[0].memory_estimate_bytes, 2 * 1024 * 1024);
    assert_eq!(cards[0].context_window, 4096);
    assert_eq!(cards[0].max_concurrency, Some(32));
    assert_eq!(cards[0].reasoning_tier, Some(ReasoningEffort::Medium));
    assert_eq!(p.route_call("oa/gpt", None).unwrap(), ("gpt".to_string(), Capability::Chat));
    match p.route_call("oa/vision", Some(Capability::Vlm)) {
        Err(EngineError::UnsupportedOperation(m)) => assert_eq!(m, "provider 'oa' does not support vlm"),
        _ => panic!("vlm is not served by this provider"),
    }
    match p.route_call("oa/gpt", Some(Capability::Tts)) {
        Err(EngineError::UnsupportedOperation(m)) => assert_eq!(m, "provider 'oa' model 'gpt' does not support tts"),
        _ => panic!("gpt does not speak"),
    }
    assert_eq!(p.health_plan(Some(200)), HealthPlan::Settled(BackendHealth::Unavailable));
    let keyed = OpenAiCompatProvider::with_output_dir("oa", "https://api", "k", vec![def("gpt", "chat", None)], CostTier::Medium, None, "/tmp".into());
    assert_eq!(keyed.health_plan(Some(204)), HealthPlan::Settled(BackendHealth::Healthy));
    assert_eq!(keyed.health_plan(Some(404)), HealthPlan::ProbeChat);
    assert_eq!(keyed.health_plan(None), HealthPlan::ProbeChat);
    assert_eq!(keyed.health_plan(Some(502)), HealthPlan::Settled(BackendHealth::Degraded));
    assert_eq!(keyed.health_plan(Some(401)), HealthPlan::Settled(BackendHealth::Unavailable));
    assert_eq!(keyed.probe_model(), Some("gpt".to_string()));
    assert_eq!(keyed.endpoint("models"), "https://api/models");
    assert_eq!(keyed.voice(None), "alloy");
    assert!(matches!(keyed.speech_input(None, None), Err(EngineError::InvalidRequest(_))));
    match keyed.image_prompt(Some("  ".into()), Some("p".into()), true) {
        Err(EngineError::InvalidRequest(m)) => assert_eq!(m, "image editing requires a prompt"),
        _ => panic!("a blank first message is no prompt"),
    }
}

#[test]
fn image_references_decode_and_name() {
    let (bytes, mime) = decode_data_image("data:image/png;base64,aGVsbG8=", "input image").unwrap().unwrap();
    assert_eq!(bytes, b"hello".to_vec());
    assert_eq!(mime, "image/png");
    match decode_data_image("data:image/png,abc", "mask") {
        Some(Err(EngineError::InvalidRequest(m))) => assert_eq!(m, "mask data: URL must be base64-encoded"),
        _ => panic!("a plain data URL is refused"),
    }
    match decode_data_image("data:;base64,@@@", "mask") {
        Some(Err(EngineError::InvalidRequest(m))) => assert!(m.starts_with("mask data: URL payload is not valid base64: ")),
        _ => panic!("bad base64 is refused"),
    }
    assert!(decode_data_image("https://x/y.png", "mask").is_none());
    assert_eq!(image_mime("/p/photo.JPG"), "image/jpeg");
    assert_eq!(image_mime("/p/a.webp"), "image/webp");
    assert_eq!(image_mime("/p/noext"), "image/png");
    assert_eq!(upload_file_name("/audio/clip.wav"), "clip.wav");
    assert_eq!(upload_file_name("/"), "audio.mp3");
    let p = OpenAiCompatProvider::with_output_dir("oa", "https://api", "k", vec![], CostTier::Low, None, "/tmp".into());
    assert!(matches!(p.image_result(Some("aGk=".into()), None), Ok(ImageSource::Inline(b)) if b == b"hi".to_vec()));
    assert!(matches!(p.image_result(None, Some("https://u".into())), Ok(ImageSource::Download(u)) if u == "https://u"));
    match p.image_result(None, None) {
        Err(EngineError::ProviderError { provider, detail }) => {
            assert_eq!(provider, "oa");
            assert_eq!(detail, "image result had neither b64_json nor url");
        }
        _ => panic!("an empty image result is an error"),
    }
}

// ----- Music ------------------------------------------------------------------------

#[test]
fn submit_body_standard_vs_custom() {
    let standard = build_submit_body("欢快的流行歌", None, None, None, None);
    assert_eq!(standard.prompt, "欢快的流行歌");
    assert!(!standard.wait_audio);
    assert!(standard.lyrics.is_none());
    assert_eq!(submit_path(&standard), "api/generate");

    let custom = build_submit_body(
        "欢快的流行歌",
        None,
        Some("[ verse ]".into()),
        Some("pop, upbeat".into()),
        Some("晨跑".into()),
    );
    assert_eq!(custom.lyrics.as_deref(), Some("[ verse ]"));
    assert_eq!(custom.tags.as_deref(), Some("pop, upbeat"));
    assert_eq!(custom.title.as_deref(), Some("晨跑"));
    assert_eq!(custom.prompt, "[ verse ]");
    assert_eq!(submit_path(&custom), "api/custom_generate");

    let instrumental = build_submit_body("x", Some(true), None, None, None);
    assert!(instrumental.make_instrumental);
}

#[test]
fn clip_state_mapping() {
    assert_eq!(parse_clip_state(Some("queued".into()), None, None), ClipState::Pending);
    assert_eq!(parse_clip_state(Some("running".into()), None, None), ClipState::Pending);
    assert_eq!(parse_clip_state(None, None, None), ClipState::Pending);
    assert_eq!(
        parse_clip_state(Some("streaming".into()), Some("https://cdn/x.mp3".into()), None),
        ClipState::Ready("https://cdn/x.mp3".into())
    );
    assert!(matches!(parse_clip_state(Some("streaming".into()), None, None), ClipState::Failed(_)));
    assert_eq!(
        parse_clip_state(Some("error".into()), None, Some("credits exhausted".into())),
        ClipState::Failed("credits exhausted".into())
    );
}

#[test]
fn music_provider_checks_polls_and_labels() {
    let p = CloudMusicGenProvider::new("suno", "", Some("".into()), Some("env-cookie".into()), music_models(), CostTier::Medium, None, "/tmp/mofa_artifacts".into());
    assert_eq!(p.base_url(), "http://127.0.0.1:3000");
    assert_eq!(p.cookie(), Some("env-cookie"));
    assert_eq!(p.endpoint("api/generate"), "http://127.0.0.1:3000/api/generate");
    let trimmed = CloudMusicGenProvider::new("suno", "https://g.example//", None, None, music_models(), CostTier::Medium, None, "/tmp".into());
    assert_eq!(trimmed.base_url(), "https://g.example");
    assert_eq!(trimmed.cookie(), None);
    assert!(matches!(p.check_call("suno/suno-v4", None), Ok(n) if n == "suno-v4"));
    assert!(matches!(p.check_call("suno/suno-v4", Some(Capability::Chat)), Err(EngineError::UnsupportedOperation(_))));
    assert!(matches!(p.check_call("suno/other", None), Err(EngineError::UnsupportedOperation(_))));
    match p.prompt(Some("   ".into()), None) {
        Err(EngineError::InvalidRequest(m)) => assert_eq!(m, "music_gen requires a prompt"),
        _ => panic!("a blank prompt is invalid"),
    }
    assert!(matches!(p.after_poll("c1", 1, ClipState::Pending), MusicPoll::Again));
    match p.after_poll("c1", 120, ClipState::Pending) {
        MusicPoll::Stop(EngineError::ProviderError { detail, .. }) => {
            assert_eq!(detail, "music clip c1 did not finish within 120 polls")
        }
        _ => panic!("the last attempt gives up"),
    }
    match p.after_poll("c1", 3, ClipState::Failed("blocked".into())) {
        MusicPoll::Stop(EngineError::ProviderError { detail, .. }) => assert_eq!(detail, "music clip c1 failed: blocked"),
        _ => panic!("a failed clip stops"),
    }
    assert!(matches!(p.after_poll("c1", 2, ClipState::Ready("u".into())), MusicPoll::Download(u) if u == "u"));
    assert!(p.check_audio(0).is_err());
    assert_eq!(poll_interval_secs(Some(0)), 5);
    assert_eq!(poll_interval_secs(Some(1)), 1);
    assert_eq!(track_label(Some("夜航".into()), Some("lofi".into())).as_deref(), Some("夜航 · lofi"));
    assert_eq!(track_label(None, Some("lofi".into())).as_deref(), Some("lofi"));
    assert_eq!(track_label(Some("".into()), None), None);
    assert_eq!(p.lifecycle("suno/suno-v4").model_id, "suno/suno-v4");
}

// ----- Cloud video ------------------------------------------------------------------

fn video_provider(dialect: &str, base_url: &str) -> CloudVideoGenProvider {
    CloudVideoGenProvider::new("video", dialect, base_url, Some("k".into()), None, video_models(), CostTier::High, None, "/tmp/mofa_artifacts".into())
}

#[test]
fn empty_base_url_defaults_per_dialect() {
    let ark = video_provider("ark", "");
    assert_eq!(ark.base_url(), DEFAULT_ARK_BASE_URL);
    assert_eq!(ark.dialect(), VideoDialect::Ark);
    assert_eq!(ark.kind(), ProviderKind::CloudVideoGen);
    assert!(!ark.kind().is_local());
    let agnes = video_provider("agnes", "");
    assert_eq!(agnes.base_url(), DEFAULT_AGNES_BASE_URL);
    assert_eq!(agnes.dialect(), VideoDialect::Agnes);
}

#[test]
fn trailing_slash_in_base_url_is_trimmed() {
    let p = video_provider("ark", "https://example.com/api/v3/");
    assert_eq!(p.base_url(), "https://example.com/api/v3");
}

#[test]
fn command_suffix_only_emits_present_keys() {
    assert_eq!(
        command_suffix(Some("16:9"), Some("1080p"), Some(5), Some(24), Some(42)),
        " --ratio 16:9 --resolution 1080p --duration 5 --fps 24 --seed 42"
    );
    assert_eq!(command_suffix(None, None, Some(8), None, None), " --duration 8");
    assert_eq!(command_suffix(None, None, None, None, None), "");
}

#[test]
fn command_suffix_trims_and_signs() {
    assert_eq!(
        command_suffix(Some(" 16:9 "), Some("  "), Some(5), Some(24), Some(-3)),
        " --ratio 16:9 --duration 5 --fps 24 --seed -3"
    );
    assert_eq!(agnes_dimensions(Some(640), Some(480), Some("1x1")), (640, 480));
    assert_eq!(agnes_dimensions(None, Some(480), Some("800x600")), (800, 600));
    assert_eq!(agnes_dimensions(None, None, Some("0x0")), (0, 0));
    assert_eq!(agnes_dimensions(None, None, None), (1152, 768));
}

#[test]
fn ark_body_text_only() {
    let suffix = command_suffix(Some("16:9"), None, None, None, None);
    let body = ark_body("seedance-1-0-pro", "a rocket launch", &suffix, None);
    assert_eq!(body.model, "seedance-1-0-pro");
    assert_eq!(body.text, "a rocket launch --ratio 16:9");
    assert!(body.image_url.is_none());
}

#[test]
fn ark_body_image_to_video_appends_image_item() {
    let body = ark_body("seedance-1-0-pro", "make it move", "", Some("https://img/x.png".into()));
    assert_eq!(body.image_url.as_deref(), Some("https://img/x.png"));
    assert!(ark_body("m", "p", "", Some("".into())).image_url.is_none());
}

#[test]
fn agnes_body_is_flat_with_derived_frames() {
    let dims = agnes_dimensions(positive_u32(Some(1152)), positive_u32(Some(768)), None);
    let body = agnes_body("agnes-video-v2.0", "a paper boat", dims, Some(24), None, None, Some(5));
    assert_eq!(body.model, "agnes-video-v2.0");
    assert_eq!(body.prompt, "a paper boat");
    assert_eq!(body.width, 1152);
    assert_eq!(body.height, 768);
    assert_eq!(body.frame_rate, 24);
    assert_eq!(body.num_frames, 121);
    let d = agnes_body("agnes-video-v2.0", "x", agnes_dimensions(None, None, None), None, None, None, None);
    assert_eq!((d.width, d.height), (1152, 768));
    assert_eq!(d.frame_rate, 24);
    assert_eq!(d.num_frames, 121);
    let explicit = agnes_body("m", "x", (1, 1), Some(0), Some(30), Some(60), Some(9));
    assert_eq!(explicit.frame_rate, 30);
    assert_eq!(explicit.num_frames, 60);
}

#[test]
fn parse_task_id_reads_id_or_errors() {
    assert_eq!(task_id(Some("cgt-1".into())).as_deref(), Some("cgt-1"));
    assert!(task_id(None).is_none());
    assert!(task_id(Some("".into())).is_none());
}

#[test]
fn parse_task_state_covers_terminal_and_pending() {
    assert_eq!(
        task_state(&json(r#"{"status": "succeeded", "content": {"video_url": "https://v/clip.mp4"}}"#)),
        VideoTaskState::Succeeded("https://v/clip.mp4".into())
    );
    assert!(matches!(task_state(&json(r#"{"status": "succeeded"}"#)), VideoTaskState::Failed(_)));
    assert_eq!(
        task_state(&json(r#"{"status": "failed", "error": {"message": "nsfw"}}"#)),
        VideoTaskState::Failed("nsfw".into())
    );
    assert_eq!(task_state(&json(r#"{"status": "running"}"#)), VideoTaskState::Pending);
    assert_eq!(task_state(&json("{}")), VideoTaskState::Pending);
}

#[test]
fn parse_task_state_agnes_shape() {
    assert_eq!(
        task_state(&json(r#"{"status": "completed", "url": "https://out/clip.mp4", "video_id": "video_abc"}"#)),
        VideoTaskState::Succeeded("https://out/clip.mp4".into())
    );
    assert_eq!(
        task_state(&json(r#"{"status": "completed", "metadata": {"url": "https://out/clip.mp4"}}"#)),
        VideoTaskState::Succeeded("https://out/clip.mp4".into())
    );
    assert_eq!(
        task_state(&json(r#"{"status": "in_progress", "progress": 30}"#)),
        VideoTaskState::Pending
    );
}

#[test]
fn keyless_video_provider_is_unavailable() {
    let p = CloudVideoGenProvider::new("ark", "ark", "", None, None, video_models(), CostTier::High, None, "/tmp".into());
    assert!(!p.is_available());
    assert_eq!(p.health(), BackendHealth::Unavailable);
    match p.check_credentials() {
        Err(EngineError::ProviderError { provider, detail }) => {
            assert_eq!(provider, "ark");
            assert_eq!(detail, "no ARK_API_KEY credentials configured");
        }
        _ => panic!("a keyless provider refuses to render"),
    }
    let cards = p.discover();
    assert_eq!(cards[0].availability, ModelAvailability::Unavailable);
    assert_eq!(p.tasks_url(), format!("{DEFAULT_ARK_BASE_URL}/contents/generations/tasks"));
    match p.prompt(None, None) {
        Err(EngineError::InvalidRequest(m)) => assert_eq!(m, "video_gen requires a prompt"),
        _ => panic!("no prompt"),
    }
    assert!(matches!(p.after_poll("t", 200, VideoTaskState::Pending), VideoPoll::Stop(_)));
    assert!(matches!(p.after_poll("t", 199, VideoTaskState::Pending), VideoPoll::Again));
    assert!(matches!(p.check_call("ark/seedance-1-0-pro", Some(Capability::Chat)), Err(EngineError::UnsupportedOperation(_))));
}

// ----- Video tasks ------------------------------------------------------------------

#[test]
fn video_task_lifecycle_decisions() {
    let p = VideoTaskProvider::new("dash", "https://api/v1", "sk", video_models(), CostTier::High, Some("".into()), "/tmp".into());
    assert_eq!(p.output_dir(), "/tmp");
    assert_eq!(p.kind(), ProviderKind::VideoTask);
    assert!(p.features().is_empty());
    assert_eq!(p.health(), BackendHealth::Healthy);
    assert_eq!(p.create_url(), "https://api/v1/video-synthesis");
    assert_eq!(p.task_url("task-42"), "https://api/v1/tasks/task-42");
    let cards = p.discover();
    assert_eq!(cards.len(), 1);
    assert_eq!(cards[0].id, "dash/seedance-1-0-pro");
    assert_eq!(cards[0].max_concurrency, Some(4));
    assert!(matches!(p.task_step("t", Some("SUCCEEDED"), None), TaskStep::Done));
    assert!(matches!(p.task_step("t", Some("RUNNING"), None), TaskStep::Wait));
    match p.task_step("t", None, None) {
        TaskStep::Stop(EngineError::ProviderError { detail, .. }) => {
            assert_eq!(detail, "video task 't' ended unsuccessfully: no failure detail")
        }
        _ => panic!("an unknown status ends the task"),
    }
    let req = p.task_request("seedance", Some("一只橘猫".into()), Some(5), Some("1280x720".into())).unwrap();
    assert_eq!(req.prompt, "一只橘猫");
    assert_eq!(req.duration, Some(5));
    assert!(matches!(p.task_request("seedance", None, None, None), Err(EngineError::InvalidRequest(_))));
    assert!(p.past_deadline(600));
    assert!(!p.past_deadline(599));
    assert!(matches!(p.deadline_error("t"), EngineError::Timeout(m) if m == "video task 't' did not finish within 600s"));
    assert_eq!(p.lifecycle("dash/x").model_id, "dash/x");
}

// ----- liter-llm ------------------------------------------------------------------------

#[test]
fn liter_messages_images_and_prompts() {
    assert_eq!(message_role("developer"), LiterRole::System);
    assert_eq!(message_role("assistant"), LiterRole::Assistant);
    assert_eq!(message_role("tool"), LiterRole::User);
    assert_eq!(detail_tier(Some("high")), DetailTier::High);
    assert_eq!(detail_tier(Some("HIGH")), DetailTier::Auto);
    assert_eq!(detail_tier(None), DetailTier::Auto);
    assert_eq!(
        vlm_parts("describe", &vec!["u1".to_string(), "u2".to_string()]),
        vec![LiterPart::Text("describe".into()), LiterPart::Image("u1".into()), LiterPart::Image("u2".into())]
    );
    assert_eq!(vlm_parts("", &vec!["u1".to_string()]), vec![LiterPart::Image("u1".into())]);
    assert_eq!(passthrough_image("data:image/png;base64,AA").as_deref(), Some("data:image/png;base64,AA"));
    assert!(passthrough_image("/tmp/cat.png").is_none());
    assert_eq!(inline_image_url("/tmp/cat.PNG", b"hi"), "data:image/png;base64,aGk=");
    assert_eq!(inline_image_url("/tmp/cat", b"hi"), "data:image/jpeg;base64,aGk=");
    assert!(matches!(image_prompt(Some("".into()), Some("p".into())), Err(EngineError::InvalidRequest(_))));
    assert_eq!(image_prompt(None, Some(" p ".into())).unwrap(), " p ");
}
