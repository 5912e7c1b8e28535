use mofa_engine::catalog::ProviderKind;
use mofa_engine::config::{
    provider_plan,
    default_port, detected_providers, env_var_name, resolve_env_value, validate_providers, ArtifactConfig,
    ListenConfig, MemoryConfig, ModelDef, ProviderConfig, SecurityConfig, TimeoutConfig,
};
use mofa_engine::kernel::EngineError;

fn config_error(r: Result<(), EngineError>) -> String {
    match r {
        Err(EngineError::Config(m)) => m,
        _ => panic!("expected a configuration error"),
    }
}

#[test]
fn default_config_has_ollama() {
    let providers = detected_providers(None, None, None, None, None, None);
    assert!(providers.iter().any(|p| p.name == "ollama"));
    assert_eq!(providers.len(), 1);
}

#[test]
fn default_listen_port() {
    assert_eq!(ListenConfig::default().port, 8420);
    assert_eq!(default_port(), 8420);
    assert_eq!(ListenConfig::default().host, "127.0.0.1");
}

#[test]
fn detected_providers_follow_the_keys() {
    let providers = detected_providers(Some("o".into()), None, Some("d".into()), None, None, Some("z".into()));
    let names: Vec<&str> = providers.iter().map(|p| p.name.as_str()).collect();
    assert_eq!(names, vec!["ollama", "openai", "dashscope", "zhipu"]);
    assert_eq!(providers[1].api_key.as_deref(), Some("o"));
    assert_eq!(providers[1].models.len(), 5);
    assert_eq!(providers[1].priority, 10);
    assert_eq!(providers[2].models[2].context_window, Some(32768));
    assert_eq!(providers[3].base_url, "https://open.bigmodel.cn/api/paas/v4");
    assert!(validate_providers(&providers).is_ok());
}

#[test]
fn timeout_defaults_and_durations() {
    let t = TimeoutConfig::default();
    assert_eq!(t.queue_secs, 30);
    assert_eq!(t.inference_secs, 180);
    assert_eq!(t.request().as_secs(), 240);
    assert_eq!(t.load().as_secs(), 60);
    assert_eq!(t.discovery().as_secs(), 8);
    assert_eq!(t.health().as_secs(), 5);
    assert_eq!(t.queue().as_secs(), 30);
    assert_eq!(t.inference().as_secs(), 180);
}

#[test]
fn other_defaults() {
    assert_eq!(MemoryConfig::default().idle_timeout_secs, 120);
    assert!(MemoryConfig::default().budget_mb.is_none());
    assert_eq!(ArtifactConfig::default().retention_secs, 3600);
    assert!(SecurityConfig::default().input_roots.is_empty());
    let p = ProviderConfig::default();
    assert_eq!(p.priority, 5);
    assert_eq!(p.cost_tier, "medium");
    assert!(p.enabled);
}

#[test]
fn validate_rejects_unknown_provider_kind() {
    let providers = vec![ProviderConfig {
        name: "bad".into(),
        kind: "bad_kind".into(),
        base_url: "http://localhost".into(),
        api_key: None,
        priority: 1,
        cost_tier: "free".into(),
        models: vec![],
        enabled: true,
        ..Default::default()
    }];
    assert_eq!(
        config_error(validate_providers(&providers)),
        "unknown provider kind 'bad_kind' for provider 'bad'"
    );
}

#[test]
fn validate_checks_keys_commands_models_and_capabilities() {
    let mut p = ProviderConfig { name: "oa".into(), kind: "openai_compatible".into(), ..Default::default() };
    assert_eq!(config_error(validate_providers(&[p.clone()])), "provider 'oa' requires a non-empty api_key");
    p.api_key = Some("k".into());
    p.models = vec![ModelDef { name: "m".into(), capability: "telepathy".into(), ..Default::default() }];
    assert_eq!(
        config_error(validate_providers(&[p.clone()])),
        "provider 'oa' model 'm' has unknown capability 'telepathy'"
    );
    p.enabled = false;
    assert!(validate_providers(&[p]).is_ok());

    let mut t = ProviderConfig { name: "tts".into(), kind: "local_tts".into(), ..Default::default() };
    assert_eq!(
        config_error(validate_providers(&[t.clone()])),
        "provider 'tts' (local_tts) requires a non-empty command"
    );
    t.command = Some("say".into());
    assert_eq!(
        config_error(validate_providers(&[t.clone()])),
        "provider 'tts' (local_tts) must declare at least one model"
    );
    t.models = vec![ModelDef { name: "v".into(), capability: "tts".into(), ..Default::default() }];
    assert!(validate_providers(&[t]).is_ok());
}

#[test]
fn provider_kind_parses_known_kinds() {
    let mut p = ProviderConfig::default();
    p.kind = "ollama".into();
    assert_eq!(p.provider_kind().unwrap(), ProviderKind::Ollama);
    p.kind = "local_tts".into();
    assert_eq!(p.provider_kind().unwrap(), ProviderKind::LocalTts);
    p.kind = "openai_compatible".into();
    assert_eq!(p.provider_kind().unwrap(), ProviderKind::OpenAiCompatible);
}

#[test]
fn resolve_env_var_plain() {
    assert_eq!(resolve_env_value("plain-key", None).unwrap(), "plain-key");
}

#[test]
fn resolve_env_var_syntax() {
    assert_eq!(env_var_name("${TEST_MOFA_KEY}").unwrap(), "TEST_MOFA_KEY");
    assert_eq!(
        resolve_env_value("${TEST_MOFA_KEY}", Some("resolved-value".into())).unwrap(),
        "resolved-value"
    );
}

#[test]
fn unresolved_env_var_errors() {
    match resolve_env_value("${MISSING_MOFA_KEY}", None) {
        Err(EngineError::Config(m)) => assert_eq!(m, "environment variable 'MISSING_MOFA_KEY' is not set"),
        _ => panic!("expected a configuration error"),
    }
    assert_eq!(env_var_name("${}").unwrap(), "");
    assert!(env_var_name("${").is_none());
    assert!(env_var_name("$NAME").is_none());
}

#[test]
fn provider_plan_registers_enabled_providers_in_order() {
    let mut off = ProviderConfig { name: "off".into(), kind: "bogus".into(), ..Default::default() };
    off.enabled = false;
    let mut tts = ProviderConfig { name: "tts".into(), kind: "local_tts".into(), ..Default::default() };
    tts.command = Some("say".into());
    tts.priority = 2;
    let oll = ProviderConfig { name: "oll".into(), kind: "ollama".into(), ..Default::default() };
    let plan = provider_plan(&[off, oll, tts.clone()]).unwrap();
    assert_eq!(plan, vec![("oll".to_string(), ProviderKind::Ollama, 5), ("tts".to_string(), ProviderKind::LocalTts, 2)]);

    let mut no_cmd = tts;
    no_cmd.command = None;
    let bad = ProviderConfig { name: "x".into(), kind: "bogus".into(), ..Default::default() };
    assert!(matches!(provider_plan(&[no_cmd.clone(), bad.clone()]),
        Err(EngineError::Config(m)) if m == "provider 'tts' (local_tts) requires a command"));
    assert!(matches!(provider_plan(&[bad, no_cmd]),
        Err(EngineError::Config(m)) if m == "unknown provider kind 'bogus' for provider 'x'"));
}
