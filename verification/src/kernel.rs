//! Core types shared across the engine: model kinds, backend kinds, model
//! records, request/response shapes, the engine error, and the memory and
//! scheduling interfaces.

use vstd::prelude::*;

use crate::text::{ascii_lower, concat, decimal, str_eq, u64_to_decimal};

verus! {

#[verifier::external_type_specification]
#[verifier::external_body]
pub struct ExJsonValue(serde_json::Value);

/// The kind of work a model performs.
#[derive(Debug, Clone, Copy, PartialEq, Eq, Hash, Structural)]
#[non_exhaustive]
pub enum ModelType {
    Llm,
    Tts,
    Asr,
    ImageGen,
    VideoGen,
    Vlm,
    VoiceClone,
}

/// The display name of a model type.
pub open spec fn model_type_name(t: ModelType) -> Seq<char> {
    match t {
        ModelType::Llm => "llm"@,
        ModelType::Tts => "tts"@,
        ModelType::Asr => "asr"@,
        ModelType::ImageGen => "image_gen"@,
        ModelType::VideoGen => "video_gen"@,
        ModelType::Vlm => "vlm"@,
        ModelType::VoiceClone => "voice_clone"@,
    }
}

/// The model type a lower-cased name denotes, with the accepted spellings.
pub open spec fn model_type_of_lowercase(l: Seq<char>) -> Option<ModelType> {
    if l == "llm"@ {
        Some(ModelType::Llm)
    } else if l == "tts"@ {
        Some(ModelType::Tts)
    } else if l == "asr"@ {
        Some(ModelType::Asr)
    } else if l == "image_gen"@ || l == "imagegen"@ || l == "image-gen"@ {
        Some(ModelType::ImageGen)
    } else if l == "video_gen"@ || l == "videogen"@ || l == "video-gen"@ {
        Some(ModelType::VideoGen)
    } else if l == "vlm"@ {
        Some(ModelType::Vlm)
    } else if l == "voice_clone"@ || l == "voiceclone"@ || l == "voice-clone"@ {
        Some(ModelType::VoiceClone)
    } else {
        None
    }
}

/// The Unicode lower-case mapping of a string (`str::to_lowercase`).
pub uninterp spec fn lowercase(s: Seq<char>) -> Seq<char>;

/// Whether every character of `s` is ASCII.
pub open spec fn all_ascii(s: Seq<char>) -> bool {
    forall|i: int| 0 <= i < s.len() ==> (#[trigger] s[i] as u32) < 128
}

/// `s` with its ASCII letters lower-cased and everything else kept.
pub open spec fn ascii_lowered(s: Seq<char>) -> Seq<char> {
    s.map_values(|c: char| ascii_lower(c))
}

/// `str::to_lowercase`: the string mapped to lower case by Unicode rules.
/// Its documentation (with that of `str::to_ascii_lowercase`, which points to
/// it for lower-casing ASCII characters too) gives that on ASCII text it
/// lower-cases exactly the letters `A`..=`Z`; nothing more is claimed of
/// other text.
#[verifier::external_body]
pub(crate) fn to_lowercase(s: &str) -> (r: String)
    ensures
        r@ == lowercase(s@),
        all_ascii(s@) ==> r@ == ascii_lowered(s@),
{
    s.to_lowercase()
}

/// What parsing `s` as a model type gives: the type its lower-cased form
/// names, or the message `unknown model type: <s>`.
pub open spec fn parsed_model_type(s: Seq<char>) -> Result<ModelType, Seq<char>> {
    match model_type_of_lowercase(lowercase(s)) {
        Some(t) => Ok(t),
        None => Err("unknown model type: "@ + s),
    }
}

impl ModelType {
    /// The type's name as displayed (`llm`, `tts`, `image_gen`, ...).
    pub fn as_str(&self) -> (r: &'static str)
        ensures
            r@ == model_type_name(*self),
    {
        match self {
            ModelType::Llm => "llm",
            ModelType::Tts => "tts",
            ModelType::Asr => "asr",
            ModelType::ImageGen => "image_gen",
            ModelType::VideoGen => "video_gen",
            ModelType::Vlm => "vlm",
            ModelType::VoiceClone => "voice_clone",
        }
    }

    /// Parse a model type case-insensitively; `image_gen`, `video_gen` and
    /// `voice_clone` also accept their forms without separator or with `-`.
    pub fn parse(s: &str) -> (r: Result<ModelType, String>)
        ensures
            r matches Ok(t) ==> parsed_model_type(s@) == Ok::<ModelType, Seq<char>>(t),
            r matches Err(e) ==> parsed_model_type(s@) == Err::<ModelType, Seq<char>>(e@),
            all_ascii(s@) ==> (r is Ok <==> model_type_of_lowercase(ascii_lowered(s@)) is Some),
            all_ascii(s@) ==> (r matches Ok(t) ==> model_type_of_lowercase(ascii_lowered(s@)) == Some(t)),
    {
        let lower = to_lowercase(s);
        let l = lower.as_str();
        if str_eq(l, "llm") {
            Ok(ModelType::Llm)
        } else if str_eq(l, "tts") {
            Ok(ModelType::Tts)
        } else if str_eq(l, "asr") {
            Ok(ModelType::Asr)
        } else if str_eq(l, "image_gen") || str_eq(l, "imagegen") || str_eq(l, "image-gen") {
            Ok(ModelType::ImageGen)
        } else if str_eq(l, "video_gen") || str_eq(l, "videogen") || str_eq(l, "video-gen") {
            Ok(ModelType::VideoGen)
        } else if str_eq(l, "vlm") {
            Ok(ModelType::Vlm)
        } else if str_eq(l, "voice_clone") || str_eq(l, "voiceclone") || str_eq(l, "voice-clone") {
            Ok(ModelType::VoiceClone)
        } else {
            Err(concat("unknown model type: ", s))
        }
    }
}

impl core::str::FromStr for ModelType {
    type Err = String;

    fn from_str(s: &str) -> Result<Self, Self::Err> {
        ModelType::parse(s)
    }
}

/// Display and parsing agree: the name a model type is displayed as is
/// plain ASCII, and parsing it gives that model type back.
pub proof fn law_model_type_name_round_trip(t: ModelType)
    ensures
        all_ascii(model_type_name(t)),
        model_type_of_lowercase(ascii_lowered(model_type_name(t))) == Some(t),
{
    reveal_strlit("llm");
    reveal_strlit("tts");
    reveal_strlit("asr");
    reveal_strlit("image_gen");
    reveal_strlit("video_gen");
    reveal_strlit("vlm");
    reveal_strlit("voice_clone");
    reveal_strlit("imagegen");
    reveal_strlit("image-gen");
    reveal_strlit("videogen");
    reveal_strlit("video-gen");
    reveal_strlit("voiceclone");
    reveal_strlit("voice-clone");
    let n = model_type_name(t);
    assert(ascii_lowered(n) =~= n);
    match t {
        ModelType::Llm => {},
        ModelType::Tts => {
            assert("tts"@[0] != "llm"@[0]);
        },
        ModelType::Asr => {
            assert("asr"@[0] != "llm"@[0] && "asr"@[0] != "tts"@[0]);
        },
        ModelType::ImageGen => {
            assert("image_gen"@.len() != "llm"@.len() && "image_gen"@.len() != "tts"@.len() && "image_gen"@.len() != "asr"@.len());
        },
        ModelType::VideoGen => {
            assert("video_gen"@.len() != "llm"@.len() && "video_gen"@.len() != "tts"@.len() && "video_gen"@.len() != "asr"@.len());
            assert("video_gen"@[0] != "image_gen"@[0] && "video_gen"@.len() != "imagegen"@.len() && "video_gen"@[0] != "image-gen"@[0]);
        },
        ModelType::Vlm => {
            assert("vlm"@[0] != "llm"@[0] && "vlm"@[0] != "tts"@[0] && "vlm"@[0] != "asr"@[0]);
            assert("vlm"@.len() != "image_gen"@.len() && "vlm"@.len() != "imagegen"@.len() && "vlm"@.len() != "image-gen"@.len());
            assert("vlm"@.len() != "video_gen"@.len() && "vlm"@.len() != "videogen"@.len() && "vlm"@.len() != "video-gen"@.len());
        },
        ModelType::VoiceClone => {
            assert("voice_clone"@.len() != "llm"@.len() && "voice_clone"@.len() != "tts"@.len() && "voice_clone"@.len() != "asr"@.len());
            assert("voice_clone"@.len() != "image_gen"@.len() && "voice_clone"@.len() != "imagegen"@.len() && "voice_clone"@.len() != "image-gen"@.len());
            assert("voice_clone"@.len() != "video_gen"@.len() && "voice_clone"@.len() != "videogen"@.len() && "voice_clone"@.len() != "video-gen"@.len());
            assert("voice_clone"@.len() != "vlm"@.len());
        },
    }
}

/// `c` with an ASCII lower-case letter made upper-case (`char::to_ascii_uppercase`).
pub open spec fn ascii_upper(c: char) -> char {
    if 97 <= (c as u32) <= 122 {
        ((c as u32) - 32) as char
    } else {
        c
    }
}

/// Law: parsing a model type ignores case on ASCII text. Upper-casing an
/// ASCII string keeps it ASCII and does not change its lower-cased form,
/// which is all that [`ModelType::parse`] reads of ASCII input.
pub proof fn law_model_type_parse_ignores_case(s: Seq<char>)
    requires
        all_ascii(s),
    ensures
        all_ascii(s.map_values(|c: char| ascii_upper(c))),
        ascii_lowered(s.map_values(|c: char| ascii_upper(c))) == ascii_lowered(s),
{
    let u = s.map_values(|c: char| ascii_upper(c));
    assert forall|i: int| 0 <= i < u.len() implies (#[trigger] u[i] as u32) < 128 by {
        assert((s[i] as u32) < 128);
    }
    assert(ascii_lowered(u) =~= ascii_lowered(s)) by {
        assert forall|i: int| 0 <= i < s.len() implies #[trigger] ascii_lower(u[i]) == ascii_lower(s[i]) by {
            let c = s[i];
            if 97 <= (c as u32) <= 122 {
                assert((((c as u32) - 32) as char) as u32 == (c as u32) - 32);
            }
        }
    }
}

/// The family of runtime a model is served by.
#[derive(Debug, Clone, Copy, PartialEq, Eq, Hash, Structural)]
#[non_exhaustive]
pub enum BackendType {
    Ollama,
    OpenAi,
    Mlx,
    Cuda,
    CpuOnnx,
}

/// The display name of a backend type.
pub open spec fn backend_type_name(t: BackendType) -> Seq<char> {
    match t {
        BackendType::Ollama => "ollama"@,
        BackendType::OpenAi => "openai"@,
        BackendType::Mlx => "mlx"@,
        BackendType::Cuda => "cuda"@,
        BackendType::CpuOnnx => "cpu_onnx"@,
    }
}

/// Whether a backend runs on the local machine (every kind but OpenAI).
pub open spec fn is_local_backend(t: BackendType) -> bool {
    t != BackendType::OpenAi
}

impl BackendType {
    /// The backend's name as displayed (`ollama`, `openai`, ...).
    pub fn as_str(&self) -> (r: &'static str)
        ensures
            r@ == backend_type_name(*self),
    {
        match self {
            BackendType::Ollama => "ollama",
            BackendType::OpenAi => "openai",
            BackendType::Mlx => "mlx",
            BackendType::Cuda => "cuda",
            BackendType::CpuOnnx => "cpu_onnx",
        }
    }

    /// Whether the backend runs on the local machine.
    pub fn is_local(&self) -> (r: bool)
        ensures
            r == is_local_backend(*self),
    {
        match self {
            BackendType::OpenAi => false,
            _ => true,
        }
    }
}

/// Lifecycle status of a model.
#[derive(Debug, Clone, Copy, PartialEq, Eq, Structural)]
#[non_exhaustive]
pub enum ModelStatus {
    Available,
    Loading,
    Loaded,
    Running,
    Unloading,
    Error,
}

/// Eviction priority of a model.
#[derive(Debug, Clone, Copy, PartialEq, Eq, Structural)]
#[non_exhaustive]
pub enum ModelPriority {
    Resident,
    Normal,
    Low,
}

impl Default for ModelPriority {
    fn default() -> (r: Self)
        ensures
            r == ModelPriority::Normal,
    {
        ModelPriority::Normal
    }
}

/// A model known to the engine.
#[derive(Debug, Clone)]
pub struct ModelInfo {
    pub id: String,
    pub name: String,
    pub model_type: ModelType,
    pub backend: BackendType,
    pub status: ModelStatus,
    pub memory_bytes: u64,
    pub priority: ModelPriority,
}

/// A model record as contracts speak of it.
pub struct ModelInfoView {
    pub id: Seq<char>,
    pub name: Seq<char>,
    pub model_type: ModelType,
    pub backend: BackendType,
    pub status: ModelStatus,
    pub memory_bytes: u64,
    pub priority: ModelPriority,
}

impl View for ModelInfo {
    type V = ModelInfoView;

    open spec fn view(&self) -> ModelInfoView {
        ModelInfoView {
            id: self.id@,
            name: self.name@,
            model_type: self.model_type,
            backend: self.backend,
            status: self.status,
            memory_bytes: self.memory_bytes,
            priority: self.priority,
        }
    }
}

impl ModelInfo {
    /// A copy of this record.
    pub fn duplicate(&self) -> (r: ModelInfo)
        ensures
            r@ == self@,
    {
        ModelInfo {
            id: self.id.clone(),
            name: self.name.clone(),
            model_type: self.model_type,
            backend: self.backend,
            status: self.status,
            memory_bytes: self.memory_bytes,
            priority: self.priority,
        }
    }
}

/// The views of a list of model records.
pub open spec fn model_views(models: Seq<ModelInfo>) -> Seq<ModelInfoView> {
    models.map_values(|m: ModelInfo| m@)
}

/// Input to a model run.
#[derive(Debug, Clone)]
pub struct ModelInput {
    pub text: Option<String>,
    pub file: Option<String>,
    pub base64: Option<String>,
    pub prompt: Option<String>,
    pub params: Option<serde_json::Value>,
}

/// Output of a model run.
#[derive(Debug, Clone)]
pub struct ModelOutput {
    pub text: Option<String>,
    pub file: Option<String>,
    pub base64: Option<String>,
}

/// A request to run a model, chosen by type or by name.
#[derive(Debug, Clone)]
pub struct RunRequest {
    pub model_type: Option<String>,
    pub model: Option<String>,
    pub input: ModelInput,
    pub hint: Option<PrefetchHint>,
}

/// A hint naming the model (or model type) likely to be requested next.
#[derive(Debug, Clone)]
pub struct PrefetchHint {
    pub next: Option<String>,
}

/// The answer to a run request.
#[derive(Debug, Clone)]
pub struct RunResponse {
    pub output: ModelOutput,
    pub model_used: String,
    pub backend: String,
    pub duration_ms: u64,
    pub request_id: String,
}

/// Every model the engine knows.
#[derive(Debug, Clone)]
pub struct CapabilitiesResponse {
    pub models: Vec<ModelInfo>,
}

/// Memory, loaded models and backends of the engine.
#[derive(Debug, Clone)]
pub struct EngineStatus {
    pub total_memory_bytes: u64,
    pub used_memory_bytes: u64,
    pub available_memory_bytes: u64,
    pub loaded_models: Vec<ModelInfo>,
    pub backends: Vec<BackendStatus>,
}

/// Health and size of one backend.
#[derive(Debug, Clone)]
pub struct BackendStatus {
    pub backend_type: BackendType,
    pub healthy: bool,
    pub model_count: usize,
}

/// Engine errors.
#[derive(Debug, Clone)]
#[non_exhaustive]
pub enum EngineError {
    ModelNotFound(String),
    BackendNotAvailable(String),
    InsufficientMemory { need: u64, available: u64 },
    LoadFailed(String),
    InferenceFailed(String),
    InvalidInput(String),
    BackendError(String),
    Timeout(String),
    ConfigError(String),
    Internal(String),
    Config(String),
    InvalidRequest(String),
    UnsupportedOperation(String),
    ProviderError { provider: String, detail: String },
    MemoryPressure { need: u64, available: u64 },
}

/// The text an engine error is displayed as.
pub open spec fn error_text(e: EngineError) -> Seq<char> {
    match e {
        EngineError::ModelNotFound(m) => "model not found: "@ + m@,
        EngineError::BackendNotAvailable(m) => "backend not available: "@ + m@,
        EngineError::InsufficientMemory { need, available } => "insufficient memory: need "@ + decimal(need as nat)
            + " bytes, available "@ + decimal(available as nat) + " bytes"@,
        EngineError::LoadFailed(m) => "model load failed: "@ + m@,
        EngineError::InferenceFailed(m) => "inference failed: "@ + m@,
        EngineError::InvalidInput(m) => "invalid input: "@ + m@,
        EngineError::BackendError(m) => "backend error: "@ + m@,
        EngineError::Timeout(m) => "timeout: "@ + m@,
        EngineError::ConfigError(m) => "config error: "@ + m@,
        EngineError::Internal(m) => "internal error: "@ + m@,
        EngineError::Config(m) => "configuration error: "@ + m@,
        EngineError::InvalidRequest(m) => "invalid request: "@ + m@,
        EngineError::UnsupportedOperation(m) => "unsupported operation: "@ + m@,
        EngineError::ProviderError { provider, detail } => "provider error ("@ + provider@ + "): "@ + detail@,
        EngineError::MemoryPressure { need, available } => "memory pressure: need "@ + decimal(need as nat)
            + " bytes, available "@ + decimal(available as nat) + " bytes"@,
    }
}

impl EngineError {
    /// The text the error is displayed as.
    pub fn message(&self) -> (r: String)
        ensures
            r@ == error_text(*self),
    {
        match self {
            EngineError::ModelNotFound(m) => concat("model not found: ", m.as_str()),
            EngineError::BackendNotAvailable(m) => concat("backend not available: ", m.as_str()),
            EngineError::InsufficientMemory { need, available } => {
                let a = concat("insufficient memory: need ", u64_to_decimal(*need).as_str());
                let b = concat(a.as_str(), " bytes, available ");
                let c = concat(b.as_str(), u64_to_decimal(*available).as_str());
                concat(c.as_str(), " bytes")
            },
            EngineError::LoadFailed(m) => concat("model load failed: ", m.as_str()),
            EngineError::InferenceFailed(m) => concat("inference failed: ", m.as_str()),
            EngineError::InvalidInput(m) => concat("invalid input: ", m.as_str()),
            EngineError::BackendError(m) => concat("backend error: ", m.as_str()),
            EngineError::Timeout(m) => concat("timeout: ", m.as_str()),
            EngineError::ConfigError(m) => concat("config error: ", m.as_str()),
            EngineError::Internal(m) => concat("internal error: ", m.as_str()),
            EngineError::Config(m) => concat("configuration error: ", m.as_str()),
            EngineError::InvalidRequest(m) => concat("invalid request: ", m.as_str()),
            EngineError::UnsupportedOperation(m) => concat("unsupported operation: ", m.as_str()),
            EngineError::ProviderError { provider, detail } => {
                let a = concat("provider error (", provider.as_str());
                let b = concat(a.as_str(), "): ");
                concat(b.as_str(), detail.as_str())
            },
            EngineError::MemoryPressure { need, available } => {
                let a = concat("memory pressure: need ", u64_to_decimal(*need).as_str());
                let b = concat(a.as_str(), " bytes, available ");
                let c = concat(b.as_str(), u64_to_decimal(*available).as_str());
                concat(c.as_str(), " bytes")
            },
        }
    }
}

/// Memory accounting of loaded models against a fixed total.
pub trait MemoryManager {
    /// Total memory in bytes.
    fn total_memory(&self) -> u64;

    /// Memory in use in bytes.
    fn used_memory(&self) -> u64;

    /// Memory still free in bytes.
    fn available_memory(&self) -> u64;

    /// Whether `required_bytes` fit in the free memory.
    fn can_fit(&self, required_bytes: u64) -> bool;

    /// Reserve `bytes` for `model_id`.
    fn reserve(&mut self, model_id: &str, bytes: u64) -> Result<(), EngineError>;

    /// Release `model_id`'s reservation, returning the bytes freed.
    fn release(&mut self, model_id: &str) -> Result<u64, EngineError>;

    /// The models to evict so that `required_bytes` fit.
    fn evict_for(&self, required_bytes: u64) -> Result<Vec<String>, EngineError>;
}

/// Chooses the model that serves a request.
pub trait Scheduler {
    /// The id of the model to run, given an optional type and name.
    fn select_model(
        &self,
        model_type: Option<ModelType>,
        model_name: Option<&str>,
        available: &[ModelInfo],
    ) -> Result<String, EngineError>;

    /// React to a prefetch hint.
    fn on_hint(&self, hint: &PrefetchHint);

    /// React to a completed run.
    fn on_run_complete(&self, model_type: ModelType, model_id: &str);
}

} // verus!
