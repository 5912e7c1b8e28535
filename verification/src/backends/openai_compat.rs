//! The OpenAI-compatible provider: its configured models, which calls it
//! takes, its health probe, the inputs of an embedding and the order of the
//! vectors that come back, and the image references it reads.

use vstd::prelude::*;

use crate::artifacts::{artifact_dir_for, resolve_artifact_dir};
use crate::backends::common::{serves, model_supports, strings_view, request_text, take_request_text};
use crate::backends::encoding::{base64_bytes, decode_base64};
use crate::backends::streaming::TokenCounts;
use crate::paths::{extension_of, file_name_of, path_extension, path_file_name};
use crate::catalog::{
    capability_name, capability_named, effort_named, model_name_of, BackendFeature, BackendHealth,
    Capability, CostTier, LifecycleResult, ModelAvailability, ModelCard, ModelId, ModelResidency,
    ProviderKind, ReasoningEffort,
};
use crate::config::ModelDef;
use crate::kernel::{lowercase, to_lowercase, EngineError};
use crate::text::{
    concat, eq_ignore_ascii_case, find_seq, first_occurrence, has_prefix, is_blank, owned,
    same_ignoring_ascii_case, starts_with, str_eq, substring, trim_is_empty,
};

verus! {

/// The parts of a `data:<mime>[;base64],<payload>` reference: the MIME type
/// (`image/png` when empty), whether the payload is base64 (the text after
/// the first `;` is `base64`, ignoring ASCII case), and the payload after the
/// first `,`. `None` for anything else.
pub open spec fn data_url_parts(reference: Seq<char>) -> Option<(Seq<char>, bool, Seq<char>)> {
    if !has_prefix(reference, "data:"@) {
        None
    } else {
        let rest = reference.skip(5);
        match first_occurrence(rest, ","@) {
            None => None,
            Some(c) => {
                let header = rest.take(c);
                let payload = rest.skip(c + 1);
                let mime = match first_occurrence(header, ";"@) {
                    Some(s) => header.take(s),
                    None => header,
                };
                let is_base64 = match first_occurrence(header, ";"@) {
                    Some(s) => same_ignoring_ascii_case(header.skip(s + 1), "base64"@),
                    None => false,
                };
                Some((if mime.len() == 0 { "image/png"@ } else { mime }, is_base64, payload))
            },
        }
    }
}

/// Split a `data:` URL into its MIME type, base64 flag and payload.
pub fn parse_data_url(reference: &str) -> (r: Option<(String, bool, String)>)
    ensures
        r matches Some(t) ==> data_url_parts(reference@) == Some((t.0@, t.1, t.2@)),
        r is None ==> data_url_parts(reference@) is None,
{
    proof {
        reveal_strlit("data:");
        reveal_strlit(",");
        reveal_strlit(";");
    }
    if !starts_with(reference, "data:") {
        return None;
    }
    let n = reference.unicode_len();
    let rest = substring(reference, 5, n);
    assert(rest@ =~= reference@.skip(5));
    let m = rest.as_str().unicode_len();
    let comma = match find_seq(rest.as_str(), ",") {
        None => {
            return None;
        },
        Some(c) => c,
    };
    let header = substring(rest.as_str(), 0, comma);
    let payload = substring(rest.as_str(), comma + 1, m);
    assert(header@ =~= rest@.take(comma as int));
    assert(payload@ =~= rest@.skip(comma as int + 1));
    let hn = header.as_str().unicode_len();
    let (mime, is_base64) = match find_seq(header.as_str(), ";") {
        Some(s) => {
            let mime = substring(header.as_str(), 0, s);
            let tail = substring(header.as_str(), s + 1, hn);
            assert(mime@ =~= header@.take(s as int));
            assert(tail@ =~= header@.skip(s as int + 1));
            (mime, eq_ignore_ascii_case(tail.as_str(), "base64"))
        },
        None => (header, false),
    };
    let mime = if mime.as_str().unicode_len() == 0 {
        owned("image/png")
    } else {
        mime
    };
    Some((mime, is_base64, payload))
}

/// Whether position `a` of a batch comes before position `b`: a smaller
/// index, or the same index and an earlier position.
pub open spec fn comes_before(keys: Seq<u32>, a: int, b: int) -> bool {
    keys[a] < keys[b] || (keys[a] == keys[b] && a < b)
}

/// Whether every row of a batch carries an index.
pub open spec fn all_indexed(indices: Seq<Option<u32>>) -> bool {
    forall|i: int| 0 <= i < indices.len() ==> (#[trigger] indices[i]) is Some
}

/// The indices of a fully indexed batch.
pub open spec fn index_keys(indices: Seq<Option<u32>>) -> Seq<u32> {
    indices.map_values(|o: Option<u32>| o.unwrap())
}

/// `p` lists each position of the batch exactly once.
pub open spec fn is_arrangement(p: Seq<usize>, n: int) -> bool {
    &&& p.len() == n
    &&& forall|k: int| 0 <= k < n ==> (#[trigger] p[k]) < n
    &&& forall|a: int, b: int| 0 <= a < b < n ==> p[a] != p[b]
}

/// The order in which the rows of an embedding batch are returned: when
/// every row carries an index, by index, rows of equal index in the order
/// received; otherwise the order received.
pub open spec fn is_batch_order(indices: Seq<Option<u32>>, p: Seq<usize>) -> bool {
    &&& is_arrangement(p, indices.len() as int)
    &&& if all_indexed(indices) {
        forall|a: int, b: int|
            0 <= a < b < p.len() ==> comes_before(index_keys(indices), #[trigger] p[a] as int, #[trigger] p[b] as int)
    } else {
        forall|k: int| 0 <= k < p.len() ==> #[trigger] p[k] == k
    }
}

/// The order of the rows of an embedding batch (see [`is_batch_order`]),
/// as the positions of the rows received.
pub fn embedding_order(indices: &Vec<Option<u32>>) -> (r: Vec<usize>)
    ensures
        is_batch_order(indices@, r@),
{
    let n = indices.len();
    let mut indexed = true;
    let mut i: usize = 0;
    while i < n
        invariant
            n == indices@.len(),
            i <= n,
            indexed == (forall|k: int| 0 <= k < i ==> (#[trigger] indices@[k]) is Some),
        decreases n - i,
    {
        if indices[i].is_none() {
            indexed = false;
        }
        i = i + 1;
    }
    let mut order: Vec<usize> = Vec::new();
    if !indexed {
        let mut k: usize = 0;
        while k < n
            invariant
                n == indices@.len(),
                k <= n,
                order@.len() == k,
                forall|j: int| 0 <= j < k ==> #[trigger] order@[j] == j,
            decreases n - k,
        {
            order.push(k);
            k = k + 1;
        }
        return order;
    }
    let ghost keys = index_keys(indices@);
    let mut i: usize = 0;
    while i < n
        invariant
            n == indices@.len(),
            i <= n,
            all_indexed(indices@),
            keys == index_keys(indices@),
            is_arrangement(order@, i as int),
            forall|a: int, b: int|
                0 <= a < b < order@.len() ==> comes_before(keys, #[trigger] order@[a] as int, #[trigger] order@[b] as int),
        decreases n - i,
    {
        let key = match indices[i] {
            Some(v) => v,
            None => 0,
        };
        assert(key == keys[i as int]);
        let mut j: usize = 0;
        while j < order.len()
            invariant
                n == indices@.len(),
                i < n,
                keys == index_keys(indices@),
                key == keys[i as int],
                all_indexed(indices@),
                is_arrangement(order@, i as int),
                forall|a: int, b: int|
                    0 <= a < b < order@.len() ==> comes_before(keys, #[trigger] order@[a] as int, #[trigger] order@[b] as int),
                j <= order@.len(),
                forall|k: int| 0 <= k < j ==> keys[#[trigger] order@[k] as int] <= key,
            ensures
                j <= order@.len(),
                j < order@.len() ==> keys[order@[j as int] as int] > key,
                forall|k: int| 0 <= k < j ==> keys[#[trigger] order@[k] as int] <= key,
            decreases order.len() - j,
        {
            let p = order[j];
            let pk = match indices[p] {
                Some(v) => v,
                None => 0,
            };
            assert(indices@[p as int] is Some);
            assert(pk == keys[p as int]);
            if pk > key {
                break;
            }
            j = j + 1;
        }
        let ghost before = order@;
        proof {
            assert forall|k: int| j <= k < before.len() implies keys[#[trigger] before[k] as int] > key by {
                if k > j {
                    assert(comes_before(keys, before[j as int] as int, before[k] as int));
                }
            }
        }
        order.insert(j, i);
        proof {
            assert forall|k: int| 0 <= k < i + 1 implies (#[trigger] order@[k]) < i + 1 by {
                if k < j {
                    assert(order@[k] == before[k]);
                } else if k > j {
                    assert(order@[k] == before[k - 1]);
                }
            }
            assert forall|a: int, b: int| 0 <= a < b < i + 1 implies order@[a] != order@[b] by {
                if a < j && b < j {
                } else if a < j && b == j {
                } else if a < j {
                    assert(order@[b] == before[b - 1]);
                } else if a == j {
                    assert(order@[b] == before[b - 1]);
                } else {
                    assert(order@[a] == before[a - 1]);
                    assert(order@[b] == before[b - 1]);
                }
            }
            assert forall|a: int, b: int|
                0 <= a < b < order@.len() implies comes_before(keys, #[trigger] order@[a] as int, #[trigger] order@[b] as int) by {
                if a < j && b < j {
                    assert(order@[a] == before[a] && order@[b] == before[b]);
                } else if a < j && b == j {
                    assert(order@[a] == before[a]);
                    assert(keys[before[a] as int] <= key);
                } else if a < j {
                    assert(order@[a] == before[a] && order@[b] == before[b - 1]);
                } else if a == j {
                    assert(order@[b] == before[b - 1]);
                    assert(keys[before[b - 1] as int] > key);
                } else {
                    assert(order@[a] == before[a - 1] && order@[b] == before[b - 1]);
                }
            }
        }
        i = i + 1;
    }
    order
}

/// The `input` parameter of an embedding request.
#[derive(Debug, Clone)]
pub enum EmbedInput {
    /// Not given.
    Missing,
    /// A single text.
    Text(String),
    /// A list; entries that are not strings are `None`.
    List(Vec<Option<String>>),
    /// Anything else.
    Other,
}

/// The non-empty strings of a list, in order.
pub open spec fn listed_texts(items: Seq<Option<String>>) -> Seq<Seq<char>>
    decreases items.len(),
{
    if items.len() == 0 {
        seq![]
    } else {
        let prev = listed_texts(items.drop_last());
        match items.last() {
            Some(t) => if t@.len() > 0 {
                prev.push(t@)
            } else {
                prev
            },
            None => prev,
        }
    }
}

/// The message contents that are not blank, in order.
pub open spec fn nonblank_contents(contents: Seq<String>) -> Seq<Seq<char>>
    decreases contents.len(),
{
    if contents.len() == 0 {
        seq![]
    } else {
        let prev = nonblank_contents(contents.drop_last());
        if is_blank(contents.last()@) {
            prev
        } else {
            prev.push(contents.last()@)
        }
    }
}

/// The texts an embedding request embeds: a non-empty `input` text; else
/// the non-empty strings of an `input` list, when there are any; else every
/// message content that is not blank.
pub open spec fn embedding_inputs_of(input: EmbedInput, contents: Seq<String>) -> Seq<Seq<char>> {
    match input {
        EmbedInput::Text(t) if t@.len() > 0 => seq![t@],
        EmbedInput::List(items) if listed_texts(items@).len() > 0 => listed_texts(items@),
        _ => nonblank_contents(contents),
    }
}

/// The texts to embed (see [`embedding_inputs_of`]).
pub fn embedding_inputs(input: &EmbedInput, contents: &Vec<String>) -> (r: Vec<String>)
    ensures
        strings_view(r@) == embedding_inputs_of(*input, contents@),
{
    match input {
        EmbedInput::Text(t) => {
            if t.unicode_len() > 0 {
                let v = vec![owned(t.as_str())];
                assert(strings_view(v@) =~= seq![t@]);
                return v;
            }
        },
        EmbedInput::List(items) => {
            let listed = listed_strings(items);
            if listed.len() > 0 {
                return listed;
            }
        },
        _ => {},
    }
    nonblank_strings(contents)
}

fn listed_strings(items: &Vec<Option<String>>) -> (r: Vec<String>)
    ensures
        strings_view(r@) == listed_texts(items@),
{
    let mut out: Vec<String> = Vec::new();
    let mut i: usize = 0;
    while i < items.len()
        invariant
            i <= items@.len(),
            strings_view(out@) == listed_texts(items@.take(i as int)),
        decreases items.len() - i,
    {
        assert(items@.take(i as int + 1).drop_last() =~= items@.take(i as int));
        if let Some(t) = &items[i] {
            if t.unicode_len() > 0 {
                out.push(owned(t.as_str()));
            }
        }
        assert(strings_view(out@) =~= listed_texts(items@.take(i as int + 1)));
        i = i + 1;
    }
    assert(items@.take(items@.len() as int) =~= items@);
    out
}

fn nonblank_strings(contents: &Vec<String>) -> (r: Vec<String>)
    ensures
        strings_view(r@) == nonblank_contents(contents@),
{
    let mut out: Vec<String> = Vec::new();
    let mut i: usize = 0;
    while i < contents.len()
        invariant
            i <= contents@.len(),
            strings_view(out@) == nonblank_contents(contents@.take(i as int)),
        decreases contents.len() - i,
    {
        assert(contents@.take(i as int + 1).drop_last() =~= contents@.take(i as int));
        if !trim_is_empty(contents[i].as_str()) {
            out.push(owned(contents[i].as_str()));
        }
        assert(strings_view(out@) =~= nonblank_contents(contents@.take(i as int + 1)));
        i = i + 1;
    }
    assert(contents@.take(contents@.len() as int) =~= contents@);
    out
}

/// An embedding needs at least one text.
pub fn check_embedding_inputs(count: usize) -> (r: Result<(), EngineError>)
    ensures
        count > 0 ==> r is Ok,
        count == 0 ==> (r matches Err(EngineError::InvalidRequest(m)) && m@
            == "embedding requires text input (params.input or messages)"@),
{
    if count == 0 {
        Err(EngineError::InvalidRequest(owned("embedding requires text input (params.input or messages)")))
    } else {
        Ok(())
    }
}

/// The token counts of an embedding: the prompt count, and as the total
/// the reported total, else the prompt count (embeddings bill input only).
pub fn embedding_tokens(usage: Option<TokenCounts>) -> (r: (Option<u32>, Option<u32>))
    ensures
        match usage {
            Some(u) => r.0 == u.prompt && r.1 == (match u.total {
                Some(t) => Some(t),
                None => u.prompt,
            }),
            None => r.0 is None && r.1 is None,
        },
{
    match usage {
        Some(u) => (u.prompt, match u.total {
            Some(t) => Some(t),
            None => u.prompt,
        }),
        None => (None, None),
    }
}

/// The low 32 bits of an unsigned parameter.
pub open spec fn low_u32_of(v: u64) -> int {
    v as int % 0x1_0000_0000
}

/// The `max_tokens` sent with a chat: the parameter's low 32 bits, when it
/// is an unsigned integer.
pub fn max_tokens_option(param: Option<u64>) -> (r: Option<u32>)
    ensures
        match param {
            Some(v) => r == Some(low_u32_of(v) as u32) && (r.unwrap() as int) == low_u32_of(v),
            None => r is None,
        },
{
    match param {
        Some(v) => {
            let t = v as u32;
            assert(t == v % 0x1_0000_0000) by (bit_vector)
                requires
                    t == v as u32,
            ;
            Some(t)
        },
        None => None,
    }
}

/// How the provider's health probe goes on after `GET /models`.
#[derive(Debug, Clone, Copy, PartialEq, Eq, Structural)]
pub enum HealthPlan {
    /// The probe is settled.
    Settled(BackendHealth),
    /// Try a one-token chat; success means healthy.
    ProbeChat,
}

/// A provider for an OpenAI-compatible API.
pub struct OpenAiCompatProvider {
    name: String,
    base_url: String,
    api_key: String,
    models: Vec<ModelDef>,
    cost_tier: CostTier,
    output_dir: String,
}

/// Whether `c` is the card of configured model `m` (of recognised
/// capability) served by provider `p` at cost `tier`: configured and
/// remote, its window as configured (else 4096), its memory in bytes, up to
/// 32 requests at once, and the reasoning tier its configuration names.
pub open spec fn is_compat_card(c: ModelCard, p: Seq<char>, tier: CostTier, m: ModelDef) -> bool {
    &&& capability_named(m.capability@) matches Some(cap)
    &&& c.capability == cap
    &&& c.capabilities@ == seq![cap]
    &&& c.id@ == p + "/"@ + m.name@
    &&& c.provider@ == p
    &&& c.name@ == m.name@
    &&& c.cost_tier == tier
    &&& c.availability == ModelAvailability::Configured
    &&& c.residency == ModelResidency::Remote
    &&& c.context_window == (match m.context_window {
        Some(w) => w,
        None => 4096,
    })
    &&& c.memory_estimate_bytes == (match m.memory_mb {
        Some(mb) => mb * 1048576,
        None => 0,
    })
    &&& c.max_concurrency == Some(32u32)
    &&& c.reasoning_tier == (match m.reasoning_tier {
        Some(t) => effort_named(t@),
        None => None,
    })
}

/// The configured models whose capability is recognised, in order.
pub open spec fn recognised_models(models: Seq<ModelDef>) -> Seq<ModelDef>
    decreases models.len(),
{
    if models.len() == 0 {
        seq![]
    } else {
        let prev = recognised_models(models.drop_last());
        if capability_named(models.last().capability@) is Some {
            prev.push(models.last())
        } else {
            prev
        }
    }
}

/// Whether every configured memory estimate fits in bytes.
pub open spec fn memory_fits(models: Seq<ModelDef>) -> bool {
    forall|i: int|
        0 <= i < models.len() ==> match (#[trigger] models[i]).memory_mb {
            Some(mb) => mb * 1048576 <= u64::MAX,
            None => true,
        }
}

/// The outcome of the checks before a call: the model to run and the
/// capability asked for (chat by default), or why it is refused.
pub open spec fn compat_route(
    provider: Seq<char>,
    models: Seq<ModelDef>,
    model_id: Seq<char>,
    requested: Option<Capability>,
) -> Result<(Seq<char>, Capability), Seq<char>> {
    let name = model_name_of(model_id);
    let cap = match requested {
        Some(c) => c,
        None => Capability::Chat,
    };
    if !serves(models, name, cap) {
        Err("provider '"@ + provider + "' model '"@ + name + "' does not support "@ + capability_name(cap))
    } else if cap == Capability::Vlm || cap == Capability::VideoGen || cap == Capability::MusicGen {
        Err("provider '"@ + provider + "' does not support "@ + capability_name(cap))
    } else {
        Ok((name, cap))
    }
}

impl OpenAiCompatProvider {
    pub closed spec fn spec_name(&self) -> Seq<char> {
        self.name@
    }

    pub closed spec fn spec_base_url(&self) -> Seq<char> {
        self.base_url@
    }

    pub closed spec fn spec_api_key(&self) -> Seq<char> {
        self.api_key@
    }

    pub closed spec fn spec_models(&self) -> Seq<ModelDef> {
        self.models@
    }

    pub closed spec fn spec_cost_tier(&self) -> CostTier {
        self.cost_tier
    }

    pub closed spec fn spec_output_dir(&self) -> Seq<char> {
        self.output_dir@
    }

    /// A provider for the API at `base_url`, writing its artifacts into
    /// `output_dir` when one is configured, else into `default_dir`.
    pub fn with_output_dir(
        name: &str,
        base_url: &str,
        api_key: &str,
        models: Vec<ModelDef>,
        cost_tier: CostTier,
        output_dir: Option<String>,
        default_dir: String,
    ) -> (r: Self)
        ensures
            r.spec_name() == name@,
            r.spec_base_url() == base_url@,
            r.spec_api_key() == api_key@,
            r.spec_models() == models@,
            r.spec_cost_tier() == cost_tier,
            r.spec_output_dir() == artifact_dir_for(output_dir, default_dir@),
    {
        OpenAiCompatProvider {
            name: owned(name),
            base_url: owned(base_url),
            api_key: owned(api_key),
            models,
            cost_tier,
            output_dir: resolve_artifact_dir(output_dir, default_dir),
        }
    }

    pub fn name(&self) -> (r: &str)
        ensures
            r@ == self.spec_name(),
    {
        self.name.as_str()
    }

    pub fn api_key(&self) -> (r: &str)
        ensures
            r@ == self.spec_api_key(),
    {
        self.api_key.as_str()
    }

    pub fn output_dir(&self) -> (r: &str)
        ensures
            r@ == self.spec_output_dir(),
    {
        self.output_dir.as_str()
    }

    pub fn kind(&self) -> (r: ProviderKind)
        ensures
            r == ProviderKind::OpenAiCompatible,
    {
        ProviderKind::OpenAiCompatible
    }

    /// Discovery only.
    pub fn features(&self) -> (r: Vec<BackendFeature>)
        ensures
            r@ == seq![BackendFeature::Discovery],
    {
        vec![BackendFeature::Discovery]
    }

    /// The URL of an endpoint: `<base_url>/<path>`.
    pub fn endpoint(&self, path: &str) -> (r: String)
        ensures
            r@ == self.spec_base_url() + "/"@ + path@,
    {
        let head = concat(self.base_url.as_str(), "/");
        concat(head.as_str(), path)
    }

    /// The cards of the configured models whose capability is recognised,
    /// in order (see [`is_compat_card`]).
    pub fn discover(&self) -> (r: Vec<ModelCard>)
        requires
            memory_fits(self.spec_models()),
        ensures
            r@.len() == recognised_models(self.spec_models()).len(),
            forall|i: int|
                0 <= i < r@.len() ==> is_compat_card(
                    #[trigger] r@[i],
                    self.spec_name(),
                    self.spec_cost_tier(),
                    recognised_models(self.spec_models())[i],
                ),
    {
        let mut out: Vec<ModelCard> = Vec::new();
        let mut i: usize = 0;
        while i < self.models.len()
            invariant
                i <= self.models@.len(),
                memory_fits(self.models@),
                out@.len() == recognised_models(self.models@.take(i as int)).len(),
                forall|k: int|
                    0 <= k < out@.len() ==> is_compat_card(
                        #[trigger] out@[k],
                        self.name@,
                        self.cost_tier,
                        recognised_models(self.models@.take(i as int))[k],
                    ),
            decreases self.models.len() - i,
        {
            assert(self.models@.take(i as int + 1).drop_last() =~= self.models@.take(i as int));
            let m = &self.models[i];
            if let Some(cap) = Capability::from_str_loose(m.capability.as_str()) {
                let memory = match m.memory_mb {
                    Some(mb) => {
                        assert(self.models@[i as int].memory_mb == Some(mb));
                        mb * 1048576
                    },
                    None => 0,
                };
                let tier = match &m.reasoning_tier {
                    Some(t) => ReasoningEffort::from_str_loose(t.as_str()),
                    None => None,
                };
                let card = ModelCard {
                    id: ModelId::canonical(self.name.as_str(), m.name.as_str()),
                    provider: owned(self.name.as_str()),
                    name: owned(m.name.as_str()),
                    capability: cap,
                    capabilities: vec![cap],
                    cost_tier: self.cost_tier,
                    availability: ModelAvailability::Configured,
                    residency: ModelResidency::Remote,
                    context_window: match m.context_window {
                        Some(w) => w,
                        None => 4096,
                    },
                    memory_estimate_bytes: memory,
                    max_concurrency: Some(32),
                    reasoning_tier: tier,
                };
                assert(card.capabilities@ =~= seq![cap]);
                out.push(card);
            }
            i = i + 1;
        }
        assert(self.models@.take(self.models@.len() as int) =~= self.models@);
        out
    }

    /// Loading or unloading changes nothing: the model stays remote, holding
    /// no memory, under its canonical id.
    pub fn lifecycle(&self, model_id: &str) -> (r: LifecycleResult)
        ensures
            r.model_id@ == self.spec_name() + "/"@ + model_name_of(model_id@),
            r.residency == ModelResidency::Remote,
            r.memory_bytes == Some(0u64),
            !r.changed,
    {
        let name = ModelId::name(model_id);
        LifecycleResult {
            model_id: ModelId::canonical(self.name.as_str(), name.as_str()),
            residency: ModelResidency::Remote,
            memory_bytes: Some(0),
            changed: false,
        }
    }

    /// The checks before a call (see [`compat_route`]): the configured model
    /// must serve the capability asked for, and the provider must handle it
    /// (chat, speech, transcription, image generation and editing,
    /// embedding).
    pub fn route_call(&self, model_id: &str, requested: Option<Capability>) -> (r: Result<
        (String, Capability),
        EngineError,
    >)
        ensures
            compat_route(self.spec_name(), self.spec_models(), model_id@, requested) matches Ok(p) ==> (
            r matches Ok(x) && x.0@ == p.0 && x.1 == p.1),
            compat_route(self.spec_name(), self.spec_models(), model_id@, requested) matches Err(m) ==> (
            r matches Err(EngineError::UnsupportedOperation(e)) && e@ == m),
    {
        let name = ModelId::name(model_id);
        let cap = match requested {
            Some(c) => c,
            None => Capability::Chat,
        };
        if !model_supports(self.models.as_slice(), name.as_str(), cap) {
            let a = concat("provider '", self.name.as_str());
            let b = concat(a.as_str(), "' model '");
            let c = concat(b.as_str(), name.as_str());
            let d = concat(c.as_str(), "' does not support ");
            return Err(EngineError::UnsupportedOperation(concat(d.as_str(), cap.as_str())));
        }
        match cap {
            Capability::Vlm | Capability::VideoGen | Capability::MusicGen => {
                let a = concat("provider '", self.name.as_str());
                let b = concat(a.as_str(), "' does not support ");
                Err(EngineError::UnsupportedOperation(concat(b.as_str(), cap.as_str())))
            },
            _ => Ok((name, cap)),
        }
    }

    /// The health probe after `GET /models` answered `status` (`None` when
    /// the request itself failed): without a key, unavailable; on success,
    /// healthy; on 404, or when the request failed, a chat probe decides;
    /// on a server error (5xx), degraded; otherwise unavailable.
    pub fn health_plan(&self, status: Option<u16>) -> (r: HealthPlan)
        ensures
            self.spec_api_key().len() == 0 ==> r == HealthPlan::Settled(BackendHealth::Unavailable),
            self.spec_api_key().len() > 0 ==> r == (match status {
                None => HealthPlan::ProbeChat,
                Some(s) => if 200 <= s <= 299 {
                    HealthPlan::Settled(BackendHealth::Healthy)
                } else if s == 404 {
                    HealthPlan::ProbeChat
                } else if 500 <= s <= 599 {
                    HealthPlan::Settled(BackendHealth::Degraded)
                } else {
                    HealthPlan::Settled(BackendHealth::Unavailable)
                },
            }),
    {
        if self.api_key.unicode_len() == 0 {
            return HealthPlan::Settled(BackendHealth::Unavailable);
        }
        match status {
            None => HealthPlan::ProbeChat,
            Some(s) => if 200 <= s && s <= 299 {
                HealthPlan::Settled(BackendHealth::Healthy)
            } else if s == 404 {
                HealthPlan::ProbeChat
            } else if 500 <= s && s <= 599 {
                HealthPlan::Settled(BackendHealth::Degraded)
            } else {
                HealthPlan::Settled(BackendHealth::Unavailable)
            },
        }
    }

    /// The model a chat health probe uses: the first configured chat model.
    pub fn probe_model(&self) -> (r: Option<String>)
        ensures
            r is None <==> forall|i: int|
                0 <= i < self.spec_models().len() ==> capability_named(
                    (#[trigger] self.spec_models()[i]).capability@,
                ) != Some(Capability::Chat),
            r matches Some(n) ==> exists|i: int|
                0 <= i < self.spec_models().len() && (#[trigger] self.spec_models()[i]).name@ == n@
                    && capability_named(self.spec_models()[i].capability@) == Some(Capability::Chat)
                    && forall|j: int|
                    0 <= j < i ==> capability_named(self.spec_models()[j].capability@) != Some(
                        Capability::Chat,
                    ),
    {
        let mut i: usize = 0;
        while i < self.models.len()
            invariant
                i <= self.models@.len(),
                forall|j: int|
                    0 <= j < i ==> capability_named((#[trigger] self.models@[j]).capability@) != Some(
                        Capability::Chat,
                    ),
            decreases self.models.len() - i,
        {
            if Capability::from_str_loose(self.models[i].capability.as_str()) == Some(Capability::Chat) {
                return Some(owned(self.models[i].name.as_str()));
            }
            i = i + 1;
        }
        None
    }

    /// The text a speech request reads: the first message, else the `input`
    /// parameter; a request with neither is invalid.
    pub fn speech_input(&self, first_message: Option<String>, param: Option<String>) -> (r: Result<
        String,
        EngineError,
    >)
        ensures
            first_message matches Some(m) ==> (r matches Ok(x) && x@ == m@),
            first_message is None ==> (param matches Some(p) ==> (r matches Ok(x) && x@ == p@)),
            first_message is None && param is None ==> (r matches Err(EngineError::InvalidRequest(e))
                && e@ == "TTS requires text input"@),
    {
        match first_message {
            Some(m) => Ok(m),
            None => match param {
                Some(p) => Ok(p),
                None => Err(EngineError::InvalidRequest(owned("TTS requires text input"))),
            },
        }
    }

    /// The voice of a speech request: the `voice` parameter, else `alloy`.
    pub fn voice(&self, param: Option<String>) -> (r: String)
        ensures
            r@ == (match param {
                Some(v) => v@,
                None => "alloy"@,
            }),
    {
        match param {
            Some(v) => v,
            None => owned("alloy"),
        }
    }

    /// The prompt of an image request (an edit when `editing`): the first
    /// message, else the `prompt` parameter, when not blank (see
    /// [`request_text`]).
    pub fn image_prompt(&self, first_message: Option<String>, param: Option<String>, editing: bool) -> (r:
        Result<String, EngineError>)
        ensures
            request_text(first_message, param) matches Some(t) ==> (r matches Ok(x) && x@ == t),
            request_text(first_message, param) is None ==> (r matches Err(
                EngineError::InvalidRequest(m),
            ) && m@ == (if editing {
                "image editing requires a prompt"@
            } else {
                "image generation requires a prompt"@
            })),
    {
        if editing {
            take_request_text(first_message, param, "image editing requires a prompt")
        } else {
            take_request_text(first_message, param, "image generation requires a prompt")
        }
    }

    /// An error of this provider.
    pub fn provider_error(&self, detail: String) -> (r: EngineError)
        ensures
            r matches EngineError::ProviderError { provider, detail: d } && provider@
                == self.spec_name() && d@ == detail@,
    {
        EngineError::ProviderError { provider: owned(self.name.as_str()), detail }
    }

    /// An embedding answer must hold at least one vector.
    pub fn check_vectors(&self, count: usize) -> (r: Result<(), EngineError>)
        ensures
            count > 0 ==> r is Ok,
            count == 0 ==> (r matches Err(EngineError::ProviderError { provider, detail })
                && provider@ == self.spec_name() && detail@ == "embedding response contained no vectors"@),
    {
        if count == 0 {
            Err(self.provider_error(owned("embedding response contained no vectors")))
        } else {
            Ok(())
        }
    }
}

/// An image edit needs an input image: the first image of the first
/// message.
pub fn edit_input_image(first_message_image: Option<String>) -> (r: Result<String, EngineError>)
    ensures
        first_message_image matches Some(i) ==> (r matches Ok(x) && x@ == i@),
        first_message_image is None ==> (r matches Err(EngineError::InvalidRequest(m)) && m@
            == "image editing requires an input image (messages[0].images)"@),
{
    match first_message_image {
        Some(i) => Ok(i),
        None => Err(EngineError::InvalidRequest(owned("image editing requires an input image (messages[0].images)"))),
    }
}

/// The bytes and MIME type of an image given as a `data:` URL (see
/// [`data_url_parts`]): `None` for any other reference; an invalid request
/// when the payload is not marked base64 or does not decode.
pub fn decode_data_image(reference: &str, role: &str) -> (r: Option<Result<(Vec<u8>, String), EngineError>>)
    ensures
        data_url_parts(reference@) is None ==> r is None,
        data_url_parts(reference@) matches Some(parts) ==> (!parts.1 ==> (r matches Some(
            Err(EngineError::InvalidRequest(m)),
        ) && m@ == role@ + " data: URL must be base64-encoded"@)),
        data_url_parts(reference@) matches Some(parts) ==> (parts.1 ==> (base64_bytes(parts.2) is Ok
            ==> (r matches Some(Ok(x)) && x.0@ == base64_bytes(parts.2)->Ok_0 && x.1@ == parts.0))),
        data_url_parts(reference@) matches Some(parts) ==> (parts.1 ==> (base64_bytes(parts.2) is Err
            ==> (r matches Some(Err(EngineError::InvalidRequest(m))) && m@ == role@
            + " data: URL payload is not valid base64: "@ + base64_bytes(parts.2)->Err_0))),
{
    let (mime, is_base64, payload) = match parse_data_url(reference) {
        Some(p) => p,
        None => return None,
    };
    if !is_base64 {
        return Some(Err(EngineError::InvalidRequest(concat(role, " data: URL must be base64-encoded"))));
    }
    match decode_base64(payload.as_str()) {
        Ok(bytes) => Some(Ok((bytes, mime))),
        Err(e) => {
            let a = concat(role, " data: URL payload is not valid base64: ");
            Some(Err(EngineError::InvalidRequest(concat(a.as_str(), e.as_str()))))
        },
    }
}

/// The MIME type of a local image file by its lower-cased extension: JPEG,
/// WebP or GIF by name, PNG otherwise.
pub open spec fn image_mime_of(ext: Option<Seq<char>>) -> Seq<char> {
    match ext {
        Some(e) => {
            let l = lowercase(e);
            if l == "jpg"@ || l == "jpeg"@ {
                "image/jpeg"@
            } else if l == "webp"@ {
                "image/webp"@
            } else if l == "gif"@ {
                "image/gif"@
            } else {
                "image/png"@
            }
        },
        None => "image/png"@,
    }
}

/// The MIME type of a local image file (see [`image_mime_of`]).
pub fn image_mime(path: &str) -> (r: &'static str)
    ensures
        r@ == image_mime_of(extension_of(path@)),
{
    match path_extension(path) {
        Some(e) => {
            let lower = to_lowercase(e.as_str());
            let l = lower.as_str();
            if str_eq(l, "jpg") || str_eq(l, "jpeg") {
                "image/jpeg"
            } else if str_eq(l, "webp") {
                "image/webp"
            } else if str_eq(l, "gif") {
                "image/gif"
            } else {
                "image/png"
            }
        },
        None => "image/png",
    }
}

/// The file name an audio upload carries: the path's final component, else
/// `audio.mp3`.
pub fn upload_file_name(path: &str) -> (r: String)
    ensures
        r@ == (match file_name_of(path@) {
            Some(n) => n,
            None => "audio.mp3"@,
        }),
{
    match path_file_name(path) {
        Some(n) => n,
        None => owned("audio.mp3"),
    }
}

/// A transcription needs an input file.
pub fn asr_input(input_file: Option<String>) -> (r: Result<String, EngineError>)
    ensures
        input_file matches Some(f) ==> (r matches Ok(x) && x@ == f@),
        input_file is None ==> (r matches Err(EngineError::InvalidRequest(m)) && m@
            == "ASR requires input_file"@),
{
    match input_file {
        Some(f) => Ok(f),
        None => Err(EngineError::InvalidRequest(owned("ASR requires input_file"))),
    }
}

/// Where the bytes of a generated image come from.
#[derive(Debug)]
pub enum ImageSource {
    /// Decoded from the inline `b64_json`.
    Inline(Vec<u8>),
    /// To be downloaded from the returned URL.
    Download(String),
}

impl OpenAiCompatProvider {
    /// Where the bytes of one image result come from: the inline base64
    /// when given (a provider error when it does not decode), else its URL;
    /// a result with neither is a provider error.
    pub fn image_result(&self, b64_json: Option<String>, url: Option<String>) -> (r: Result<
        ImageSource,
        EngineError,
    >)
        ensures
            b64_json matches Some(b) ==> (base64_bytes(b@) is Ok ==> (r matches Ok(ImageSource::Inline(x))
                && x@ == base64_bytes(b@)->Ok_0)),
            b64_json matches Some(b) ==> (base64_bytes(b@) is Err ==> (r matches Err(
                EngineError::ProviderError { provider, detail },
            ) && provider@ == self.spec_name() && detail@ == "image base64 decode error: "@
                + base64_bytes(b@)->Err_0)),
            b64_json is None ==> (url matches Some(u) ==> (r matches Ok(ImageSource::Download(x)) && x@
                == u@)),
            b64_json is None && url is None ==> (r matches Err(
                EngineError::ProviderError { provider, detail },
            ) && provider@ == self.spec_name() && detail@ == "image result had neither b64_json nor url"@),
    {
        match b64_json {
            Some(b) => match decode_base64(b.as_str()) {
                Ok(bytes) => Ok(ImageSource::Inline(bytes)),
                Err(e) => Err(self.provider_error(concat("image base64 decode error: ", e.as_str()))),
            },
            None => match url {
                Some(u) => Ok(ImageSource::Download(u)),
                None => Err(self.provider_error(owned("image result had neither b64_json nor url"))),
            },
        }
    }
}

} // verus!
