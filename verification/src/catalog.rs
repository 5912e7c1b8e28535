//! The provider-side vocabulary: what a model can do, what kind of backend
//! serves it, what it costs, how hard it should reason, and how a model is
//! named across providers (`<provider>/<name>`).

use vstd::prelude::*;

use crate::text::{
    concat, contains_seq, eq_ignore_ascii_case, find_seq, first_occurrence, lemma_first_occurrence_is,
    occurs_at, same_ignoring_ascii_case, substring,
};

verus! {

/// What a model can be asked to do.
#[derive(Debug, Clone, Copy, PartialEq, Eq, Hash, Structural)]
pub enum Capability {
    Chat,
    Tts,
    Asr,
    ImageGen,
    ImageEdit,
    Vlm,
    VideoGen,
    MusicGen,
    Embedding,
}

/// The configuration name of a capability.
pub open spec fn capability_name(c: Capability) -> Seq<char> {
    match c {
        Capability::Chat => "chat"@,
        Capability::Tts => "tts"@,
        Capability::Asr => "asr"@,
        Capability::ImageGen => "image_gen"@,
        Capability::ImageEdit => "image_edit"@,
        Capability::Vlm => "vlm"@,
        Capability::VideoGen => "video_gen"@,
        Capability::MusicGen => "music_gen"@,
        Capability::Embedding => "embedding"@,
    }
}

/// The capability a configuration string names, ignoring ASCII case.
pub open spec fn capability_named(s: Seq<char>) -> Option<Capability> {
    if same_ignoring_ascii_case(s, "chat"@) {
        Some(Capability::Chat)
    } else if same_ignoring_ascii_case(s, "tts"@) {
        Some(Capability::Tts)
    } else if same_ignoring_ascii_case(s, "asr"@) {
        Some(Capability::Asr)
    } else if same_ignoring_ascii_case(s, "image_gen"@) {
        Some(Capability::ImageGen)
    } else if same_ignoring_ascii_case(s, "image_edit"@) {
        Some(Capability::ImageEdit)
    } else if same_ignoring_ascii_case(s, "vlm"@) {
        Some(Capability::Vlm)
    } else if same_ignoring_ascii_case(s, "video_gen"@) {
        Some(Capability::VideoGen)
    } else if same_ignoring_ascii_case(s, "music_gen"@) {
        Some(Capability::MusicGen)
    } else if same_ignoring_ascii_case(s, "embedding"@) {
        Some(Capability::Embedding)
    } else {
        None
    }
}

impl Capability {
    /// The capability's configuration name.
    pub fn as_str(&self) -> (r: &'static str)
        ensures
            r@ == capability_name(*self),
    {
        match self {
            Capability::Chat => "chat",
            Capability::Tts => "tts",
            Capability::Asr => "asr",
            Capability::ImageGen => "image_gen",
            Capability::ImageEdit => "image_edit",
            Capability::Vlm => "vlm",
            Capability::VideoGen => "video_gen",
            Capability::MusicGen => "music_gen",
            Capability::Embedding => "embedding",
        }
    }

    /// Parse a capability name, ignoring ASCII case.
    pub fn from_str_loose(s: &str) -> (r: Option<Capability>)
        ensures
            r == capability_named(s@),
    {
        if eq_ignore_ascii_case(s, "chat") {
            Some(Capability::Chat)
        } else if eq_ignore_ascii_case(s, "tts") {
            Some(Capability::Tts)
        } else if eq_ignore_ascii_case(s, "asr") {
            Some(Capability::Asr)
        } else if eq_ignore_ascii_case(s, "image_gen") {
            Some(Capability::ImageGen)
        } else if eq_ignore_ascii_case(s, "image_edit") {
            Some(Capability::ImageEdit)
        } else if eq_ignore_ascii_case(s, "vlm") {
            Some(Capability::Vlm)
        } else if eq_ignore_ascii_case(s, "video_gen") {
            Some(Capability::VideoGen)
        } else if eq_ignore_ascii_case(s, "music_gen") {
            Some(Capability::MusicGen)
        } else if eq_ignore_ascii_case(s, "embedding") {
            Some(Capability::Embedding)
        } else {
            None
        }
    }
}

/// The family of backend a provider belongs to.
#[derive(Debug, Clone, Copy, PartialEq, Eq, Hash, Structural)]
pub enum ProviderKind {
    Ollama,
    OpenAiCompatible,
    LocalTts,
    LocalAsr,
    LocalImageGen,
    LocalVideoGen,
    LiterLlm,
    CloudMusicGen,
    CloudVideoGen,
    VideoTask,
}

/// Whether a provider kind runs on this machine.
pub open spec fn runs_locally(k: ProviderKind) -> bool {
    match k {
        ProviderKind::Ollama | ProviderKind::LocalTts | ProviderKind::LocalAsr
        | ProviderKind::LocalImageGen | ProviderKind::LocalVideoGen => true,
        _ => false,
    }
}

impl ProviderKind {
    /// Whether providers of this kind run on this machine (never a cloud call).
    pub fn is_local(&self) -> (r: bool)
        ensures
            r == runs_locally(*self),
    {
        match self {
            ProviderKind::Ollama | ProviderKind::LocalTts | ProviderKind::LocalAsr
            | ProviderKind::LocalImageGen | ProviderKind::LocalVideoGen => true,
            _ => false,
        }
    }
}

/// An optional ability of a provider.
#[derive(Debug, Clone, Copy, PartialEq, Eq, Hash, Structural)]
pub enum BackendFeature {
    Discovery,
    Load,
    Unload,
    MemoryReporting,
    ResidencyInspection,
    Streaming,
}

/// A provider's reachability as a health probe finds it.
#[derive(Debug, Clone, Copy, PartialEq, Eq, Hash, Structural)]
pub enum BackendHealth {
    Healthy,
    Degraded,
    Unavailable,
}

/// Where a model's weights currently live.
#[derive(Debug, Clone, Copy, PartialEq, Eq, Hash, Structural)]
pub enum ModelResidency {
    /// Resident in the serving process.
    Loaded,
    /// Known but not resident.
    Unloaded,
    /// A load is in flight.
    Loading,
    /// Served by a remote API; there is nothing to load.
    Remote,
}

/// What a load or unload request did.
#[derive(Debug, Clone, PartialEq, Eq)]
pub struct LifecycleResult {
    /// The canonical id of the model.
    pub model_id: String,
    /// Where the model lives afterwards.
    pub residency: ModelResidency,
    /// The memory it now holds, when known.
    pub memory_bytes: Option<u64>,
    /// Whether the request changed anything.
    pub changed: bool,
}

/// How a model became known to the engine.
#[derive(Debug, Clone, Copy, PartialEq, Eq, Hash, Structural)]
pub enum ModelAvailability {
    /// Listed in the configuration.
    Configured,
    /// Reported by the serving backend.
    Discovered,
    /// Configured, but lacking what it needs to run (credentials).
    Unavailable,
}

/// A model as a provider describes it to the engine.
#[derive(Debug)]
pub struct ModelCard {
    /// The canonical id, `<provider>/<name>`.
    pub id: String,
    /// The provider serving it.
    pub provider: String,
    /// The provider's own name for it.
    pub name: String,
    /// Its primary capability.
    pub capability: Capability,
    /// Every capability it serves.
    pub capabilities: Vec<Capability>,
    /// What it costs to use.
    pub cost_tier: CostTier,
    /// How it became known.
    pub availability: ModelAvailability,
    /// Where its weights live.
    pub residency: ModelResidency,
    /// Its context window in tokens.
    pub context_window: u32,
    /// The memory it needs when resident, in bytes.
    pub memory_estimate_bytes: u64,
    /// How many requests it may serve at once, when the provider bounds it.
    pub max_concurrency: Option<u32>,
    /// The reasoning tier it serves, when known.
    pub reasoning_tier: Option<ReasoningEffort>,
}

/// How much a provider's models cost to use.
#[derive(Debug, Clone, Copy, PartialEq, Eq, Hash, Structural)]
pub enum CostTier {
    Free,
    Low,
    Medium,
    High,
}

/// How much reasoning a request asks of a model.
#[derive(Debug, Clone, Copy, PartialEq, Eq, Hash, Structural)]
pub enum ReasoningEffort {
    Low,
    Medium,
    High,
}

/// The effort tier a name denotes, ignoring ASCII case.
pub open spec fn effort_named(s: Seq<char>) -> Option<ReasoningEffort> {
    if same_ignoring_ascii_case(s, "low"@) {
        Some(ReasoningEffort::Low)
    } else if same_ignoring_ascii_case(s, "medium"@) {
        Some(ReasoningEffort::Medium)
    } else if same_ignoring_ascii_case(s, "high"@) {
        Some(ReasoningEffort::High)
    } else {
        None
    }
}

impl ReasoningEffort {
    /// Parse an effort tier name, ignoring ASCII case.
    pub fn from_str_loose(s: &str) -> (r: Option<ReasoningEffort>)
        ensures
            r == effort_named(s@),
    {
        if eq_ignore_ascii_case(s, "low") {
            Some(ReasoningEffort::Low)
        } else if eq_ignore_ascii_case(s, "medium") {
            Some(ReasoningEffort::Medium)
        } else if eq_ignore_ascii_case(s, "high") {
            Some(ReasoningEffort::High)
        } else {
            None
        }
    }
}

/// A request's reasoning settings: the effort tier, and whether the
/// reasoning trace is returned to the caller.
#[derive(Debug, Clone, Copy, PartialEq, Eq, Structural)]
pub struct Reasoning {
    pub effort: ReasoningEffort,
    pub visible: bool,
}

/// The model name inside a model id: after the first `/` (`<provider>/<name>`),
/// else after the first `::` (the older `<provider>::<name>`), else the id itself.
pub open spec fn model_name_of(id: Seq<char>) -> Seq<char> {
    match first_occurrence(id, "/"@) {
        Some(i) => id.skip(i + 1),
        None => match first_occurrence(id, "::"@) {
            Some(i) => id.skip(i + 2),
            None => id,
        },
    }
}

/// Model ids of the form `<provider>/<name>`.
pub struct ModelId;

impl ModelId {
    /// The canonical id of model `name` served by `provider`.
    pub fn canonical(provider: &str, name: &str) -> (r: String)
        ensures
            r@ == provider@ + "/"@ + name@,
    {
        let head = concat(provider, "/");
        concat(head.as_str(), name)
    }

    /// The model name inside `id` (see [`model_name_of`]).
    pub fn name(id: &str) -> (r: String)
        ensures
            r@ == model_name_of(id@),
    {
        proof {
            reveal_strlit("/");
            reveal_strlit("::");
        }
        let n = id.unicode_len();
        match find_seq(id, "/") {
            Some(i) => {
                assert(i + "/"@.len() <= n);
                substring(id, i + 1, n)
            },
            None => match find_seq(id, "::") {
                Some(i) => {
                    assert(i + "::"@.len() <= n);
                    substring(id, i + 2, n)
                },
                None => substring(id, 0, n),
            },
        }
    }
}

/// The model name inside a canonical id `<provider>/<name>` is `name` again,
/// whenever the provider's name holds no `/`.
pub proof fn law_canonical_name_round_trip(provider: Seq<char>, name: Seq<char>)
    requires
        !contains_seq(provider, "/"@),
    ensures
        model_name_of(provider + "/"@ + name) == name,
{
    reveal_strlit("/");
    let id = provider + "/"@ + name;
    let p = provider.len() as int;
    assert(id.subrange(p, p + 1) =~= "/"@);
    assert forall|j: int| 0 <= j < p implies !occurs_at(id, "/"@, j) by {
        if occurs_at(id, "/"@, j) {
            assert(provider.subrange(j, j + 1) =~= id.subrange(j, j + 1));
            assert(occurs_at(provider, "/"@, j));
        }
    }
    lemma_first_occurrence_is(id, "/"@, p);
    assert(id.skip(p + 1) =~= name);
}

} // verus!
