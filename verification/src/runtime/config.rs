//! Configuration of the model-run engine: listen address, memory budget,
//! idle timeout, the Ollama and OpenAI backends, and extra models; and the
//! plan of which backends discovery probes.

use vstd::prelude::*;

use crate::memory::MB;
use crate::system::total_memory_bytes;
use crate::text::owned;

verus! {

/// Default listen port.
pub fn default_port() -> (r: u16)
    ensures
        r == 8420,
{
    8420
}

/// Default listen host (all interfaces).
pub fn default_host() -> (r: String)
    ensures
        r@ == "0.0.0.0"@,
{
    owned("0.0.0.0")
}

/// Default idle time before a loaded model is unloaded, in seconds.
pub fn default_idle_timeout_secs() -> (r: u64)
    ensures
        r == 60,
{
    60
}

/// Default URL of the local Ollama server.
pub fn default_ollama_url() -> (r: String)
    ensures
        r@ == "http://localhost:11434"@,
{
    owned("http://localhost:11434")
}

/// Default base URL of the OpenAI API.
pub fn default_openai_url() -> (r: String)
    ensures
        r@ == "https://api.openai.com/v1"@,
{
    owned("https://api.openai.com/v1")
}

/// Settings of the Ollama backend.
#[derive(Debug, Clone)]
pub struct OllamaConfig {
    pub url: String,
}

impl Default for OllamaConfig {
    fn default() -> (r: Self)
        ensures
            r.url@ == "http://localhost:11434"@,
    {
        OllamaConfig { url: default_ollama_url() }
    }
}

/// Settings of the OpenAI backend.
#[derive(Debug, Clone)]
pub struct OpenAiConfig {
    pub api_key: String,
    pub base_url: String,
    pub models: Vec<String>,
}

/// The backends to use.
#[derive(Debug, Clone)]
pub struct BackendsConfig {
    pub ollama: Option<OllamaConfig>,
    pub openai: Option<OpenAiConfig>,
}

impl Default for BackendsConfig {
    fn default() -> (r: Self)
        ensures
            r.ollama is None,
            r.openai is None,
    {
        BackendsConfig { ollama: None, openai: None }
    }
}

/// An extra model declared in the configuration.
#[derive(Debug, Clone)]
pub struct ModelConfig {
    pub name: String,
    /// The model type's name.
    pub model_type: String,
    pub backend: String,
    pub memory_mb: Option<u64>,
    pub priority: Option<String>,
}

/// Configuration of the engine.
#[derive(Debug, Clone)]
pub struct EngineConfig {
    pub port: u16,
    pub host: String,
    /// Memory budget in megabytes (`None`: the machine's total memory).
    pub memory_budget_mb: Option<u64>,
    pub idle_timeout_secs: u64,
    pub backends: BackendsConfig,
    pub models: Vec<ModelConfig>,
}

impl Default for EngineConfig {
    fn default() -> (r: Self)
        ensures
            r.port == 8420,
            r.host@ == "0.0.0.0"@,
            r.memory_budget_mb is None,
            r.idle_timeout_secs == 60,
            r.backends.ollama is None,
            r.backends.openai is None,
            r.models@.len() == 0,
    {
        EngineConfig {
            port: default_port(),
            host: default_host(),
            memory_budget_mb: None,
            idle_timeout_secs: default_idle_timeout_secs(),
            backends: BackendsConfig::default(),
            models: Vec::new(),
        }
    }
}

/// The models an OpenAI key gives access to when nothing is configured.
pub open spec fn openai_default_models() -> Seq<Seq<char>> {
    seq!["gpt-4o"@, "gpt-4o-mini"@, "tts-1"@, "whisper-1"@]
}

impl EngineConfig {
    /// The configuration used when no file is found: the defaults, plus the
    /// OpenAI backend with its standard models when an API key is given.
    pub fn from_environment(openai_api_key: Option<String>) -> (r: Self)
        ensures
            r.port == 8420,
            r.host@ == "0.0.0.0"@,
            r.memory_budget_mb is None,
            r.idle_timeout_secs == 60,
            r.backends.ollama is None,
            r.models@.len() == 0,
            openai_api_key is None ==> r.backends.openai is None,
            openai_api_key matches Some(k) ==> (r.backends.openai matches Some(o) && o.api_key@ == k@
                && o.base_url@ == "https://api.openai.com/v1"@ && o.models@.map_values(|m: String| m@)
                == openai_default_models()),
    {
        let mut config = EngineConfig::default();
        if let Some(key) = openai_api_key {
            let models = vec![owned("gpt-4o"), owned("gpt-4o-mini"), owned("tts-1"), owned("whisper-1")];
            assert(models@.map_values(|m: String| m@) =~= openai_default_models());
            config.backends.openai = Some(OpenAiConfig { api_key: key, base_url: default_openai_url(), models });
        }
        config
    }

    /// The memory budget in bytes: the configured megabytes, or the machine's
    /// total memory (zero when it cannot be read).
    pub fn memory_budget_bytes(&self) -> (r: u64)
        requires
            self.memory_budget_mb matches Some(mb) ==> mb * MB <= u64::MAX,
        ensures
            self.memory_budget_mb matches Some(mb) ==> r == mb * MB,
    {
        match self.memory_budget_mb {
            Some(mb) => mb * 1024 * 1024,
            None => match total_memory_bytes() {
                Some(total) => total,
                None => 0,
            },
        }
    }
}

/// Which backends discovery probes, and where.
#[derive(Debug, Clone)]
pub struct DiscoveryPlan {
    /// URL of the Ollama server (always probed).
    pub ollama_url: String,
    /// Base URL and key of the OpenAI API, when a key is known.
    pub openai: Option<(String, String)>,
}

/// Resource discovery: which backends to probe.
pub struct Discovery;

impl Discovery {
    /// The probes for `config`: Ollama at its configured URL (or the default),
    /// and OpenAI when a key is configured or given by the environment
    /// (`env_openai_key`), at its configured base URL (or the default).
    pub fn plan(config: &EngineConfig, env_openai_key: Option<String>) -> (r: DiscoveryPlan)
        ensures
            r.ollama_url@ == (match config.backends.ollama {
                Some(o) => o.url@,
                None => "http://localhost:11434"@,
            }),
            (match config.backends.openai {
                Some(o) => Some(o.api_key@),
                None => match env_openai_key {
                    Some(k) => Some(k@),
                    None => None,
                },
            }) matches Some(key) ==> (r.openai matches Some(p) && p.1@ == key && p.0@ == (match config.backends.openai {
                Some(o) => o.base_url@,
                None => "https://api.openai.com/v1"@,
            })),
            config.backends.openai is None && env_openai_key is None ==> r.openai is None,
    {
        let ollama_url = match &config.backends.ollama {
            Some(o) => o.url.clone(),
            None => owned("http://localhost:11434"),
        };
        let key = match &config.backends.openai {
            Some(o) => Some(o.api_key.clone()),
            None => env_openai_key,
        };
        let openai = match key {
            Some(k) => {
                let base = match &config.backends.openai {
                    Some(o) => o.base_url.clone(),
                    None => owned("https://api.openai.com/v1"),
                };
                Some((base, k))
            },
            None => None,
        };
        DiscoveryPlan { ollama_url, openai }
    }
}

} // verus!
