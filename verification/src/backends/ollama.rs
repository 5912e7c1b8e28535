//! A local Ollama server: the reasoning-tier overrides taken from the
//! configuration, how the models it lists are typed, which call loads or
//! unloads each model, health from the server's reply, the generation
//! options sent with a chat, and how image references reach a vision model.

use vstd::prelude::*;

use crate::catalog::{
    effort_named, model_name_of, BackendFeature, BackendHealth, Capability, CostTier, LifecycleResult,
    ModelAvailability, ModelCard, ModelId, ModelResidency, ProviderKind, ReasoningEffort,
};
use crate::backends::encoding::{base64_text, encode_base64};
use crate::config::{ModelDef, ModelDefView};
use crate::kernel::{lowercase, to_lowercase, EngineError};
use crate::text::{
    concat, contains, contains_seq, find_seq, first_occurrence, has_prefix, owned, starts_with, str_eq,
    substring,
};

verus! {

/// The tier overrides of the configured models: each model whose tier names
/// a known effort maps to it, a later model of the same name replacing an
/// earlier one.
pub open spec fn tier_overrides(models: Seq<ModelDefView>) -> Map<Seq<char>, ReasoningEffort>
    decreases models.len(),
{
    if models.len() == 0 {
        Map::empty()
    } else {
        let prev = tier_overrides(models.drop_last());
        let m = models.last();
        match m.reasoning_tier {
            Some(t) => match effort_named(t) {
                Some(e) => prev.insert(m.name, e),
                None => prev,
            },
            None => prev,
        }
    }
}

/// The map that a list of pairs spells out, later pairs replacing earlier.
pub open spec fn pairs_map(v: Seq<(Seq<char>, ReasoningEffort)>) -> Map<Seq<char>, ReasoningEffort>
    decreases v.len(),
{
    if v.len() == 0 {
        Map::empty()
    } else {
        pairs_map(v.drop_last()).insert(v.last().0, v.last().1)
    }
}

/// No name occurs twice.
pub open spec fn distinct_keys(v: Seq<(Seq<char>, ReasoningEffort)>) -> bool {
    forall|i: int, j: int| 0 <= i < j < v.len() ==> v[i].0 != v[j].0
}

proof fn lemma_pairs_map_lookup(v: Seq<(Seq<char>, ReasoningEffort)>, k: Seq<char>)
    requires
        distinct_keys(v),
    ensures
        (forall|i: int| 0 <= i < v.len() ==> v[i].0 != k) ==> !pairs_map(v).dom().contains(k),
        forall|i: int|
            0 <= i < v.len() && v[i].0 == k ==> pairs_map(v).dom().contains(k) && pairs_map(v)[k]
                == v[i].1,
    decreases v.len(),
{
    if v.len() > 0 {
        let w = v.drop_last();
        assert(distinct_keys(w));
        lemma_pairs_map_lookup(w, k);
        assert(pairs_map(v) == pairs_map(w).insert(v.last().0, v.last().1));
        assert forall|i: int| 0 <= i < v.len() && v[i].0 == k implies pairs_map(v).dom().contains(k)
            && pairs_map(v)[k] == v[i].1 by {
            if i < v.len() - 1 {
                assert(w[i] == v[i]);
            }
        }
        if forall|i: int| 0 <= i < v.len() ==> v[i].0 != k {
            assert forall|i: int| 0 <= i < w.len() implies w[i].0 != k by {
                assert(w[i] == v[i]);
            }
        }
    }
}

proof fn lemma_pairs_map_finite_len(v: Seq<(Seq<char>, ReasoningEffort)>)
    requires
        distinct_keys(v),
    ensures
        pairs_map(v).dom().finite(),
        pairs_map(v).dom().len() == v.len(),
    decreases v.len(),
{
    if v.len() > 0 {
        let w = v.drop_last();
        assert(distinct_keys(w));
        lemma_pairs_map_finite_len(w);
        lemma_pairs_map_lookup(w, v.last().0);
    }
}

proof fn lemma_pairs_map_replace(v: Seq<(Seq<char>, ReasoningEffort)>, j: int, e: ReasoningEffort)
    requires
        distinct_keys(v),
        0 <= j < v.len(),
    ensures
        distinct_keys(v.update(j, (v[j].0, e))),
        pairs_map(v.update(j, (v[j].0, e))) == pairs_map(v).insert(v[j].0, e),
{
    let w = v.update(j, (v[j].0, e));
    assert(distinct_keys(w));
    assert forall|k: Seq<char>| #[trigger] pairs_map(w).dom().contains(k) == pairs_map(v).insert(
        v[j].0,
        e,
    ).dom().contains(k) && (pairs_map(w).dom().contains(k) ==> pairs_map(w)[k] == pairs_map(
        v,
    ).insert(v[j].0, e)[k]) by {
        lemma_pairs_map_lookup(v, k);
        lemma_pairs_map_lookup(w, k);
        if exists|i: int| 0 <= i < v.len() && v[i].0 == k {
            let i = choose|i: int| 0 <= i < v.len() && v[i].0 == k;
            assert(w[i].0 == k);
        }
    }
    assert(pairs_map(w) =~= pairs_map(v).insert(v[j].0, e));
}

proof fn lemma_pairs_map_push(v: Seq<(Seq<char>, ReasoningEffort)>, k: Seq<char>, e: ReasoningEffort)
    requires
        distinct_keys(v),
        forall|i: int| 0 <= i < v.len() ==> v[i].0 != k,
    ensures
        distinct_keys(v.push((k, e))),
        pairs_map(v.push((k, e))) == pairs_map(v).insert(k, e),
{
    assert(v.push((k, e)).drop_last() =~= v);
}

/// A provider backed by a local Ollama server.
pub struct OllamaProvider {
    name: String,
    base_url: String,
    tiers: Vec<(String, ReasoningEffort)>,
}

/// The pairs of names and tiers, by their text.
pub open spec fn tier_pairs(v: Seq<(String, ReasoningEffort)>) -> Seq<(Seq<char>, ReasoningEffort)> {
    v.map_values(|p: (String, ReasoningEffort)| (p.0@, p.1))
}

impl OllamaProvider {
    /// The provider's display name.
    pub closed spec fn spec_name(&self) -> Seq<char> {
        self.name@
    }

    /// The server's base URL.
    pub closed spec fn spec_base_url(&self) -> Seq<char> {
        self.base_url@
    }

    /// The tier overrides by model name.
    pub closed spec fn spec_tiers(&self) -> Map<Seq<char>, ReasoningEffort> {
        pairs_map(tier_pairs(self.tiers@))
    }

    /// The provider is well formed: the overrides name each model once.
    pub closed spec fn wf(&self) -> bool {
        distinct_keys(tier_pairs(self.tiers@))
    }

    /// A provider for the server at `base_url`. Of the configured `models`
    /// only the reasoning-tier overrides are kept (everything else is
    /// discovered from the server): those whose tier names a known effort.
    pub fn new(name: &str, base_url: &str, models: &[ModelDef]) -> (r: Self)
        ensures
            r.wf(),
            r.spec_name() == name@,
            r.spec_base_url() == base_url@,
            r.spec_tiers() == tier_overrides(models@.map_values(|m: ModelDef| m@)),
    {
        let mut tiers: Vec<(String, ReasoningEffort)> = Vec::new();
        let ghost views = models@.map_values(|m: ModelDef| m@);
        let mut i: usize = 0;
        while i < models.len()
            invariant
                i <= models@.len(),
                views == models@.map_values(|m: ModelDef| m@),
                distinct_keys(tier_pairs(tiers@)),
                pairs_map(tier_pairs(tiers@)) == tier_overrides(views.take(i as int)),
            decreases models.len() - i,
        {
            assert(views.take(i as int + 1).drop_last() =~= views.take(i as int));
            let m = &models[i];
            if let Some(t) = &m.reasoning_tier {
                if let Some(e) = ReasoningEffort::from_str_loose(t.as_str()) {
                    upsert_tier(&mut tiers, owned(m.name.as_str()), e);
                }
            }
            i = i + 1;
        }
        assert(views.take(models@.len() as int) =~= views);
        OllamaProvider { name: owned(name), base_url: owned(base_url), tiers }
    }

    /// The provider's display name.
    pub fn name(&self) -> (r: &str)
        ensures
            r@ == self.spec_name(),
    {
        self.name.as_str()
    }

    /// The server's base URL.
    pub fn base_url(&self) -> (r: &str)
        ensures
            r@ == self.spec_base_url(),
    {
        self.base_url.as_str()
    }

    /// Ollama servers are their own provider kind.
    pub fn kind(&self) -> (r: ProviderKind)
        ensures
            r == ProviderKind::Ollama,
    {
        ProviderKind::Ollama
    }

    /// What the server supports: discovery, load and unload, residency and
    /// memory reporting.
    pub fn features(&self) -> (r: Vec<BackendFeature>)
        ensures
            r@ == seq![
                BackendFeature::Discovery,
                BackendFeature::Load,
                BackendFeature::Unload,
                BackendFeature::ResidencyInspection,
                BackendFeature::MemoryReporting,
            ],
    {
        vec![
            BackendFeature::Discovery,
            BackendFeature::Load,
            BackendFeature::Unload,
            BackendFeature::ResidencyInspection,
            BackendFeature::MemoryReporting,
        ]
    }

    /// The tier override of a model, if one was configured.
    pub fn reasoning_tier(&self, model_name: &str) -> (r: Option<ReasoningEffort>)
        requires
            self.wf(),
        ensures
            self.spec_tiers().dom().contains(model_name@) ==> r == Some(self.spec_tiers()[model_name@]),
            !self.spec_tiers().dom().contains(model_name@) ==> r is None,
    {
        let ghost v = tier_pairs(self.tiers@);
        let mut i: usize = 0;
        while i < self.tiers.len()
            invariant
                i <= self.tiers@.len(),
                v == tier_pairs(self.tiers@),
                distinct_keys(v),
                forall|j: int| 0 <= j < i ==> v[j].0 != model_name@,
            decreases self.tiers.len() - i,
        {
            if str_eq(self.tiers[i].0.as_str(), model_name) {
                proof {
                    assert(v[i as int].0 == model_name@);
                    lemma_pairs_map_lookup(v, model_name@);
                }
                return Some(self.tiers[i].1);
            }
            i = i + 1;
        }
        proof {
            lemma_pairs_map_lookup(v, model_name@);
        }
        None
    }

    /// How many models carry a tier override.
    pub fn reasoning_tier_count(&self) -> (r: usize)
        requires
            self.wf(),
        ensures
            self.spec_tiers().dom().finite(),
            r == self.spec_tiers().dom().len(),
    {
        proof {
            lemma_pairs_map_finite_len(tier_pairs(self.tiers@));
        }
        self.tiers.len()
    }
}

/// Set the tier of `name`, replacing an earlier entry of that name.
fn upsert_tier(tiers: &mut Vec<(String, ReasoningEffort)>, name: String, e: ReasoningEffort)
    requires
        distinct_keys(tier_pairs(old(tiers)@)),
    ensures
        distinct_keys(tier_pairs(final(tiers)@)),
        pairs_map(tier_pairs(final(tiers)@)) == pairs_map(tier_pairs(old(tiers)@)).insert(name@, e),
{
    let ghost v = tier_pairs(tiers@);
    let mut i: usize = 0;
    while i < tiers.len()
        invariant
            i <= tiers@.len(),
            tiers@ == old(tiers)@,
            v == tier_pairs(tiers@),
            distinct_keys(v),
            forall|j: int| 0 <= j < i ==> v[j].0 != name@,
        decreases tiers.len() - i,
    {
        if str_eq(tiers[i].0.as_str(), name.as_str()) {
            proof {
                lemma_pairs_map_replace(v, i as int, e);
                assert(tier_pairs(tiers@.update(i as int, (name, e))) =~= v.update(
                    i as int,
                    (v[i as int].0, e),
                ));
            }
            tiers.set(i, (name, e));
            return;
        }
        i = i + 1;
    }
    proof {
        lemma_pairs_map_push(v, name@, e);
        assert(tier_pairs(tiers@.push((name, e))) =~= v.push((name@, e)));
    }
    tiers.push((name, e));
}

/// Whether a lower-cased tag names one of Ollama's cloud-hosted models,
/// which are not local.
pub open spec fn is_cloud_tag(l: Seq<char>) -> bool {
    contains_seq(l, ":cloud"@) || contains_seq(l, "-cloud"@)
}

/// The capability guessed from a lower-cased model name, since the server
/// reports no modality: embedding models, vision models, image generators,
/// and chat for everything else.
pub open spec fn tag_capability(l: Seq<char>) -> Capability {
    if contains_seq(l, "embed"@) {
        Capability::Embedding
    } else if contains_seq(l, "llava"@) || contains_seq(l, "qwen2-vl"@) || contains_seq(l, "bakllava"@)
        || contains_seq(l, "moondream"@) || contains_seq(l, "vision"@) {
        Capability::Vlm
    } else if contains_seq(l, "flux"@) || contains_seq(l, "diffusion"@) || contains_seq(l, "sdxl"@)
        || contains_seq(l, "image"@) {
        Capability::ImageGen
    } else {
        Capability::Chat
    }
}

/// The capabilities a model of primary capability `c` serves: a vision model
/// also chats.
pub open spec fn served_capabilities(c: Capability) -> Seq<Capability> {
    if c == Capability::Vlm {
        seq![Capability::Vlm, Capability::Chat]
    } else {
        seq![c]
    }
}

/// Whether `n` is among `names`.
pub open spec fn lists_name(names: Seq<String>, n: Seq<char>) -> bool {
    exists|i: int| 0 <= i < names.len() && names[i]@ == n
}

/// The name of a listed model: its `name`, else its `model` field.
pub open spec fn listed_name(name: Option<String>, model: Option<String>) -> Option<Seq<char>> {
    match name {
        Some(n) => Some(n@),
        None => match model {
            Some(m) => Some(m@),
            None => None,
        },
    }
}

/// The names of the listed models that carry one, in order.
pub open spec fn present_names(entries: Seq<(Option<String>, Option<String>)>) -> Seq<Seq<char>>
    decreases entries.len(),
{
    if entries.len() == 0 {
        seq![]
    } else {
        let prev = present_names(entries.drop_last());
        match listed_name(entries.last().0, entries.last().1) {
            Some(n) => prev.push(n),
            None => prev,
        }
    }
}

/// The tier a model's name maps to, if any.
pub open spec fn tier_of(tiers: Map<Seq<char>, ReasoningEffort>, n: Seq<char>) -> Option<ReasoningEffort> {
    if tiers.dom().contains(n) {
        Some(tiers[n])
    } else {
        None
    }
}

/// `c` is the card of the listed model `n` (of `size` bytes) served by
/// `provider` with tier overrides `tiers`, while `loaded` are resident: a
/// free, discovered model with a 4096-token window, typed by its name,
/// resident exactly when listed as loaded.
pub open spec fn is_discovered_card(
    c: ModelCard,
    provider: Seq<char>,
    tiers: Map<Seq<char>, ReasoningEffort>,
    n: Seq<char>,
    size: Option<u64>,
    loaded: Seq<String>,
) -> bool {
    &&& c.id@ == provider + "/"@ + n
    &&& c.provider@ == provider
    &&& c.name@ == n
    &&& c.capability == tag_capability(lowercase(n))
    &&& c.capabilities@ == served_capabilities(tag_capability(lowercase(n)))
    &&& c.cost_tier == CostTier::Free
    &&& c.availability == ModelAvailability::Discovered
    &&& c.residency == (if lists_name(loaded, n) {
        ModelResidency::Loaded
    } else {
        ModelResidency::Unloaded
    })
    &&& c.context_window == 4096
    &&& c.memory_estimate_bytes == (match size {
        Some(b) => b,
        None => 0,
    })
    &&& c.max_concurrency is None
    &&& c.reasoning_tier == tier_of(tiers, n)
}

/// Which call a load or unload of a model takes.
#[derive(Debug, Clone, Copy, PartialEq, Eq, Structural)]
pub enum LifecycleRoute {
    /// Image generators do not load through the chat endpoint; nothing is sent.
    Untouched,
    /// Embedding models are loaded through the embedding endpoint.
    Embed,
    /// Everything else through a one-word chat.
    Chat,
}

/// The route of a model by its lower-cased name.
pub open spec fn route_of(l: Seq<char>) -> LifecycleRoute {
    if contains_seq(l, "flux"@) || contains_seq(l, "diffusion"@) || contains_seq(l, "sdxl"@) {
        LifecycleRoute::Untouched
    } else if contains_seq(l, "embed"@) {
        LifecycleRoute::Embed
    } else {
        LifecycleRoute::Chat
    }
}

/// A number parameter of a request as the options read it.
#[derive(Debug, Clone, Copy, PartialEq, Eq, Structural)]
pub enum NumberParam {
    /// The parameter is not given.
    Missing,
    /// It is given as an unsigned integer.
    Unsigned(u64),
    /// It is given as something else.
    Other,
}

/// The low 32 bits of `v`, as a conversion to `u32` keeps them.
pub open spec fn low_bits(v: u64) -> int {
    v as int % 0x1_0000_0000
}

/// A number option: the parameter's low 32 bits when it is an unsigned
/// integer, else the default.
pub open spec fn number_option(p: NumberParam, default: u32) -> int {
    match p {
        NumberParam::Unsigned(v) => low_bits(v),
        _ => default as int,
    }
}

/// Where an image reference comes from.
#[derive(Debug, Clone, PartialEq, Eq)]
pub enum ImageRef {
    /// A `data:` URL: its base64 payload.
    Inline(String),
    /// A `data:` URL without a payload; skipped.
    NoPayload,
    /// An `http(s)` URL, which the server cannot fetch; skipped.
    Remote,
    /// A local file, to be read and encoded.
    File,
}

/// What kind of image reference `s` is.
pub open spec fn image_ref_of(s: Seq<char>) -> Option<Seq<char>> {
    match first_occurrence(s, ","@) {
        Some(i) => Some(s.skip(i + 1)),
        None => None,
    }
}

/// Whether `s` is an `http(s)` URL.
pub open spec fn is_remote_url(s: Seq<char>) -> bool {
    has_prefix(s, "http://"@) || has_prefix(s, "https://"@)
}

impl OllamaProvider {
    /// The URL of an endpoint of the server: `<base_url>/<path>`.
    pub fn endpoint(&self, path: &str) -> (r: String)
        ensures
            r@ == self.spec_base_url() + "/"@ + path@,
    {
        let head = concat(self.base_url.as_str(), "/");
        concat(head.as_str(), path)
    }

    /// The card of one model the server lists (see [`is_discovered_card`]):
    /// `None` for an entry with neither `name` nor `model`, and for a
    /// cloud-hosted tag.
    pub fn discovered(
        &self,
        name: Option<String>,
        model: Option<String>,
        size: Option<u64>,
        loaded: &Vec<String>,
    ) -> (r: Option<ModelCard>)
        requires
            self.wf(),
        ensures
            match listed_name(name, model) {
                None => r is None,
                Some(n) => if is_cloud_tag(lowercase(n)) {
                    r is None
                } else {
                    (r matches Some(c) && is_discovered_card(
                        c,
                        self.spec_name(),
                        self.spec_tiers(),
                        n,
                        size,
                        loaded@,
                    ))
                },
            },
    {
        let n: String = match name {
            Some(n) => n,
            None => match model {
                Some(m) => m,
                None => return None,
            },
        };
        let lower = to_lowercase(n.as_str());
        let l = lower.as_str();
        if contains(l, ":cloud") || contains(l, "-cloud") {
            return None;
        }
        let capability = if contains(l, "embed") {
            Capability::Embedding
        } else if contains(l, "llava") || contains(l, "qwen2-vl") || contains(l, "bakllava") || contains(
            l,
            "moondream",
        ) || contains(l, "vision") {
            Capability::Vlm
        } else if contains(l, "flux") || contains(l, "diffusion") || contains(l, "sdxl") || contains(
            l,
            "image",
        ) {
            Capability::ImageGen
        } else {
            Capability::Chat
        };
        assert(capability == tag_capability(lowercase(n@)));
        let capabilities = match capability {
            Capability::Vlm => vec![Capability::Vlm, Capability::Chat],
            _ => vec![capability],
        };
        assert(capabilities@ =~= served_capabilities(capability));
        let residency = if lists(loaded, n.as_str()) {
            ModelResidency::Loaded
        } else {
            ModelResidency::Unloaded
        };
        let memory_estimate_bytes = match size {
            Some(b) => b,
            None => 0,
        };
        let reasoning_tier = self.reasoning_tier(n.as_str());
        let id = ModelId::canonical(self.name.as_str(), n.as_str());
        Some(
            ModelCard {
                id,
                provider: owned(self.name.as_str()),
                name: n,
                capability,
                capabilities,
                cost_tier: CostTier::Free,
                availability: ModelAvailability::Discovered,
                residency,
                context_window: 4096,
                memory_estimate_bytes,
                max_concurrency: None,
                reasoning_tier,
            },
        )
    }

    /// What a load (`load`) or an unload of `model_id` reports: the model's
    /// canonical id under this provider, resident after a load and not after
    /// an unload, changed unless nothing was sent, and zero bytes held after
    /// an unload through the chat endpoint.
    pub fn lifecycle_result(&self, model_id: &str, load: bool, route: LifecycleRoute) -> (r:
        LifecycleResult)
        ensures
            r.model_id@ == self.spec_name() + "/"@ + model_name_of(model_id@),
            r.residency == (if load {
                ModelResidency::Loaded
            } else {
                ModelResidency::Unloaded
            }),
            r.memory_bytes == (if !load && route == LifecycleRoute::Chat {
                Some(0u64)
            } else {
                None
            }),
            r.changed == (route != LifecycleRoute::Untouched),
    {
        let name = ModelId::name(model_id);
        let id = ModelId::canonical(self.name.as_str(), name.as_str());
        let residency = if load {
            ModelResidency::Loaded
        } else {
            ModelResidency::Unloaded
        };
        let memory_bytes = match route {
            LifecycleRoute::Chat => if load {
                None
            } else {
                Some(0u64)
            },
            _ => None,
        };
        let changed = match route {
            LifecycleRoute::Untouched => false,
            _ => true,
        };
        LifecycleResult { model_id: id, residency, memory_bytes, changed }
    }
}

/// Whether `n` is among `names`.
pub fn lists(names: &Vec<String>, n: &str) -> (r: bool)
    ensures
        r == lists_name(names@, n@),
{
    let mut i: usize = 0;
    while i < names.len()
        invariant
            i <= names@.len(),
            forall|j: int| 0 <= j < i ==> names@[j]@ != n@,
        decreases names.len() - i,
    {
        if str_eq(names[i].as_str(), n) {
            return true;
        }
        i = i + 1;
    }
    false
}

/// The names of the models a listing reports, each its `name` else its
/// `model` field; entries with neither are left out.
pub fn present_model_names(entries: &Vec<(Option<String>, Option<String>)>) -> (r: Vec<String>)
    ensures
        r@.map_values(|s: String| s@) == present_names(entries@),
{
    let mut out: Vec<String> = Vec::new();
    let mut i: usize = 0;
    while i < entries.len()
        invariant
            i <= entries@.len(),
            out@.map_values(|s: String| s@) == present_names(entries@.take(i as int)),
        decreases entries.len() - i,
    {
        assert(entries@.take(i as int + 1).drop_last() =~= entries@.take(i as int));
        let ghost before = out@;
        match &entries[i].0 {
            Some(n) => out.push(owned(n.as_str())),
            None => match &entries[i].1 {
                Some(m) => out.push(owned(m.as_str())),
                None => {},
            },
        }
        assert(out@.map_values(|s: String| s@) =~= present_names(entries@.take(i as int + 1)));
        i = i + 1;
    }
    assert(entries@.take(entries@.len() as int) =~= entries@);
    out
}

/// The route a load or unload of `model_name` takes (see [`route_of`]).
pub fn lifecycle_route(model_name: &str) -> (r: LifecycleRoute)
    ensures
        r == route_of(lowercase(model_name@)),
{
    let lower = to_lowercase(model_name);
    let l = lower.as_str();
    if contains(l, "flux") || contains(l, "diffusion") || contains(l, "sdxl") {
        LifecycleRoute::Untouched
    } else if contains(l, "embed") {
        LifecycleRoute::Embed
    } else {
        LifecycleRoute::Chat
    }
}

/// The endpoint a route calls: `api/embed` or `api/chat`, none when nothing
/// is sent.
pub fn route_path(route: LifecycleRoute) -> (r: Option<&'static str>)
    ensures
        route == LifecycleRoute::Untouched ==> r is None,
        route == LifecycleRoute::Embed ==> (r matches Some(p) && p@ == "api/embed"@),
        route == LifecycleRoute::Chat ==> (r matches Some(p) && p@ == "api/chat"@),
{
    match route {
        LifecycleRoute::Untouched => None,
        LifecycleRoute::Embed => Some("api/embed"),
        LifecycleRoute::Chat => Some("api/chat"),
    }
}

/// The `keep_alive` sent with a lifecycle call: forever (-1) to load, 0 to
/// unload.
pub fn keep_alive(load: bool) -> (r: i64)
    ensures
        r == (if load {
            -1i64
        } else {
            0i64
        }),
{
    if load {
        -1
    } else {
        0
    }
}

/// The server's health from the status of its root page: healthy on
/// success (2xx), degraded on a server error (5xx), unavailable otherwise.
pub fn health_of_status(status: u16) -> (r: BackendHealth)
    ensures
        200 <= status <= 299 ==> r == BackendHealth::Healthy,
        500 <= status <= 599 ==> r == BackendHealth::Degraded,
        !(200 <= status <= 299) && !(500 <= status <= 599) ==> r == BackendHealth::Unavailable,
{
    if 200 <= status && status <= 299 {
        BackendHealth::Healthy
    } else if 500 <= status && status <= 599 {
        BackendHealth::Degraded
    } else {
        BackendHealth::Unavailable
    }
}

/// The context window and output-token cap sent with a chat: `num_ctx`,
/// else 32768; `max_tokens`, else `num_predict` when `max_tokens` is not
/// given at all, else 4096. A value keeps its low 32 bits.
pub fn generation_limits(num_ctx: NumberParam, max_tokens: NumberParam, num_predict: NumberParam) -> (r:
    (u32, u32))
    ensures
        r.0 == number_option(num_ctx, 32768),
        r.1 == number_option(
            if max_tokens is Missing {
                num_predict
            } else {
                max_tokens
            },
            4096,
        ),
{
    let ctx = match num_ctx {
        NumberParam::Unsigned(v) => low_u32(v),
        _ => 32768,
    };
    let predict_param = match max_tokens {
        NumberParam::Missing => num_predict,
        _ => max_tokens,
    };
    let predict = match predict_param {
        NumberParam::Unsigned(v) => low_u32(v),
        _ => 4096,
    };
    (ctx, predict)
}

/// The low 32 bits of `v`.
fn low_u32(v: u64) -> (r: u32)
    ensures
        r == low_bits(v),
{
    let r = v as u32;
    assert(r == v % 0x1_0000_0000) by (bit_vector)
        requires
            r == v as u32,
    ;
    r
}

/// Where an image reference comes from: a `data:` URL carries its payload
/// after the first comma (none without a comma), an `http://` or `https://`
/// URL is remote, anything else names a local file.
pub fn classify_image(image: &str) -> (r: ImageRef)
    ensures
        has_prefix(image@, "data:"@) ==> match image_ref_of(image@) {
            Some(p) => (r matches ImageRef::Inline(q) && q@ == p),
            None => r == ImageRef::NoPayload,
        },
        !has_prefix(image@, "data:"@) && is_remote_url(image@) ==> r == ImageRef::Remote,
        !has_prefix(image@, "data:"@) && !is_remote_url(image@) ==> r == ImageRef::File,
{
    if starts_with(image, "data:") {
        let n = image.unicode_len();
        match find_seq(image, ",") {
            Some(i) => {
                proof {
                    reveal_strlit(",");
                }
                assert(i + 1 <= n);
                let payload = substring(image, i + 1, n);
                assert(payload@ =~= image@.skip(i + 1));
                ImageRef::Inline(payload)
            },
            None => ImageRef::NoPayload,
        }
    } else if starts_with(image, "http://") || starts_with(image, "https://") {
        ImageRef::Remote
    } else {
        ImageRef::File
    }
}

/// A chat needs at least one message.
pub fn check_messages(count: usize) -> (r: Result<(), EngineError>)
    ensures
        count > 0 ==> r is Ok,
        count == 0 ==> (r matches Err(EngineError::InvalidRequest(m)) && m@ == "no messages provided"@),
{
    if count == 0 {
        Err(EngineError::InvalidRequest(owned("no messages provided")))
    } else {
        Ok(())
    }
}

/// The payload a local image file is sent as: its bytes in base64 (the
/// server takes raw base64, without a `data:` prefix).
pub fn file_image_payload(bytes: &[u8]) -> (r: String)
    ensures
        r@ == base64_text(bytes@),
{
    encode_base64(bytes)
}

} // verus!
