//! A cloud provider reaching many vendors through one OpenAI-style gateway.
//!
//! A configured model name is the gateway's `vendor/model` id (such as
//! `openai/gpt-4o`); the engine's id is `<provider>/<name>`, from which
//! [`ModelId::name`] recovers the gateway id.

use vstd::prelude::*;

use crate::backends::common::serves;
use crate::catalog::{
    capability_name, model_name_of, BackendFeature, Capability, CostTier, ModelId, ProviderKind,
    Reasoning, ReasoningEffort,
};
use crate::config::ModelDef;
use crate::kernel::EngineError;
use crate::backends::encoding::{base64_text, encode_base64};
use crate::paths::{extension_of, path_extension};
use crate::text::{ascii_lower, concat, has_prefix, owned, starts_with, str_eq, to_ascii_lowercase};

verus! {

/// The gateway's reasoning-effort tiers.
#[derive(Debug, Clone, Copy, PartialEq, Eq, Structural)]
pub enum LiterEffort {
    Low,
    Medium,
    High,
}

/// Token counts a vendor reports for one call.
#[derive(Debug, Clone, Copy, PartialEq, Eq, Structural)]
pub struct Usage {
    pub prompt_tokens: u64,
    pub completion_tokens: u64,
    pub total_tokens: u64,
}

impl Default for Usage {
    fn default() -> (r: Self)
        ensures
            r.prompt_tokens == 0,
            r.completion_tokens == 0,
            r.total_tokens == 0,
    {
        Usage { prompt_tokens: 0, completion_tokens: 0, total_tokens: 0 }
    }
}

/// A count narrowed to `u32`, keeping its low 32 bits as a numeric cast does.
pub open spec fn low32(x: u64) -> u32 {
    (x % 4294967296) as u32
}

/// The gateway tier for a reasoning request.
pub open spec fn liter_effort(r: Option<Reasoning>) -> Option<LiterEffort> {
    match r {
        Some(x) => Some(
            match x.effort {
                ReasoningEffort::Low => LiterEffort::Low,
                ReasoningEffort::Medium => LiterEffort::Medium,
                ReasoningEffort::High => LiterEffort::High,
            },
        ),
        None => None,
    }
}

/// `(prompt, completion, total)` token counts, the total falling back to the
/// sum of the other two when the vendor reports none.
pub open spec fn usage_split(usage: Option<Usage>) -> (Option<u32>, Option<u32>, Option<u32>) {
    match usage {
        None => (None, None, None),
        Some(u) => {
            let prompt = low32(u.prompt_tokens);
            let completion = low32(u.completion_tokens);
            let total = if u.total_tokens > 0 {
                low32(u.total_tokens)
            } else {
                (prompt + completion) as u32
            };
            (Some(prompt), Some(completion), Some(total))
        },
    }
}

/// Whether [`usage_split`] can add the two counts without leaving `u32`.
pub open spec fn usage_sum_fits(usage: Option<Usage>) -> bool {
    match usage {
        Some(u) => u.total_tokens > 0 || low32(u.prompt_tokens) + low32(u.completion_tokens) <= u32::MAX,
        None => true,
    }
}

/// The capabilities the gateway is called for.
pub open spec fn gateway_capability(c: Capability) -> bool {
    c == Capability::Chat || c == Capability::Vlm || c == Capability::ImageGen
}

/// A provider that reaches cloud vendors through the gateway.
pub struct LiterLLMProvider {
    name: String,
    models: Vec<ModelDef>,
    cost_tier: CostTier,
    api_key: String,
    base_url: String,
    output_dir: Option<String>,
}

impl LiterLLMProvider {
    /// The provider's name.
    pub closed spec fn spec_name(&self) -> Seq<char> {
        self.name@
    }

    /// The configured models.
    pub closed spec fn spec_models(&self) -> Seq<ModelDef> {
        self.models@
    }

    /// The cost tier of every model.
    pub closed spec fn spec_cost_tier(&self) -> CostTier {
        self.cost_tier
    }

    /// The API key (empty: the vendor's environment variable is used).
    pub closed spec fn spec_api_key(&self) -> Seq<char> {
        self.api_key@
    }

    /// The base URL override (empty: the vendor's default).
    pub closed spec fn spec_base_url(&self) -> Seq<char> {
        self.base_url@
    }

    /// The configured artifact directory.
    pub closed spec fn spec_output_dir(&self) -> Option<String> {
        self.output_dir
    }

    /// A gateway provider. A missing key is kept empty, in which case the
    /// vendor's environment variable supplies it; an empty `base_url` keeps
    /// the vendor's default. Building never fails.
    pub fn new(
        name: &str,
        api_key: Option<String>,
        base_url: &str,
        models: Vec<ModelDef>,
        cost_tier: CostTier,
        output_dir: Option<String>,
    ) -> (r: Result<Self, EngineError>)
        ensures
            r matches Ok(p) && p.spec_name() == name@ && p.spec_models() == models@ && p.spec_cost_tier()
                == cost_tier && p.spec_base_url() == base_url@ && p.spec_output_dir() == output_dir
                && p.spec_api_key() == (match api_key {
                Some(k) => k@,
                None => Seq::<char>::empty(),
            }),
    {
        let key = match api_key {
            Some(k) => k,
            None => String::new(),
        };
        Ok(LiterLLMProvider { name: owned(name), models, cost_tier, api_key: key, base_url: owned(base_url), output_dir })
    }

    /// The provider's name.
    pub fn name(&self) -> (r: &str)
        ensures
            r@ == self.spec_name(),
    {
        self.name.as_str()
    }

    /// The API key (empty: the vendor's environment variable is used).
    pub fn api_key(&self) -> (r: &str)
        ensures
            r@ == self.spec_api_key(),
    {
        self.api_key.as_str()
    }

    /// The base URL override (empty: the vendor's default).
    pub fn base_url(&self) -> (r: &str)
        ensures
            r@ == self.spec_base_url(),
    {
        self.base_url.as_str()
    }

    /// The configured artifact directory.
    pub fn output_dir(&self) -> (r: &Option<String>)
        ensures
            *r == self.spec_output_dir(),
    {
        &self.output_dir
    }

    /// The cost tier of every model.
    pub fn cost_tier(&self) -> (r: CostTier)
        ensures
            r == self.spec_cost_tier(),
    {
        self.cost_tier
    }

    /// The provider's kind (a cloud gateway, never on-device).
    pub fn kind(&self) -> (r: ProviderKind)
        ensures
            r == ProviderKind::LiterLlm,
    {
        ProviderKind::LiterLlm
    }

    /// What the provider supports beyond calls.
    pub fn features(&self) -> (r: Vec<BackendFeature>)
        ensures
            r@ == seq![BackendFeature::Discovery],
    {
        vec![BackendFeature::Discovery]
    }

    /// The gateway tier for a reasoning request.
    pub fn to_liter_effort(reasoning: Option<Reasoning>) -> (r: Option<LiterEffort>)
        ensures
            r == liter_effort(reasoning),
    {
        match reasoning {
            Some(x) => Some(
                match x.effort {
                    ReasoningEffort::Low => LiterEffort::Low,
                    ReasoningEffort::Medium => LiterEffort::Medium,
                    ReasoningEffort::High => LiterEffort::High,
                },
            ),
            None => None,
        }
    }

    /// Split a vendor's usage into `(prompt, completion, total)` counts.
    pub fn split_usage(usage: Option<Usage>) -> (r: (Option<u32>, Option<u32>, Option<u32>))
        requires
            usage_sum_fits(usage),
        ensures
            r == usage_split(usage),
    {
        match usage {
            None => (None, None, None),
            Some(u) => {
                let prompt = (u.prompt_tokens % 4294967296) as u32;
                let completion = (u.completion_tokens % 4294967296) as u32;
                let total = if u.total_tokens > 0 {
                    (u.total_tokens % 4294967296) as u32
                } else {
                    prompt + completion
                };
                (Some(prompt), Some(completion), Some(total))
            },
        }
    }

    /// Check a call to `model_id` for `requested` (default: chat): the model
    /// must be configured for that capability, and the gateway is only called
    /// for chat, vision-language and image generation. Gives the gateway's
    /// model id.
    pub fn check_call(&self, model_id: &str, requested: Option<Capability>) -> (r: Result<String, EngineError>)
        ensures
            ({
                let name = model_name_of(model_id@);
                let c = match requested {
                    Some(c) => c,
                    None => Capability::Chat,
                };
                &&& !serves(self.spec_models(), name, c) ==> (r matches Err(
                    EngineError::UnsupportedOperation(m),
                ) && m@ == "provider '"@ + self.spec_name() + "' model '"@ + name
                    + "' does not support "@ + capability_name(c))
                &&& serves(self.spec_models(), name, c) && !gateway_capability(c) ==> (r matches Err(
                    EngineError::UnsupportedOperation(m),
                ) && m@ == "provider '"@ + self.spec_name() + "' does not support "@ + capability_name(
                    c,
                ) + " via liter-llm"@)
                &&& serves(self.spec_models(), name, c) && gateway_capability(c) ==> (r matches Ok(x)
                    && x@ == name)
            }),
    {
        let model_name = ModelId::name(model_id);
        let capability = match requested {
            Some(c) => c,
            None => Capability::Chat,
        };
        if !crate::backends::common::model_supports(self.models.as_slice(), model_name.as_str(), capability) {
            let a = concat("provider '", self.name.as_str());
            let b = concat(a.as_str(), "' model '");
            let c = concat(b.as_str(), model_name.as_str());
            let d = concat(c.as_str(), "' does not support ");
            return Err(EngineError::UnsupportedOperation(concat(d.as_str(), capability.as_str())));
        }
        match capability {
            Capability::Chat | Capability::Vlm | Capability::ImageGen => Ok(model_name),
            other => {
                let a = concat("provider '", self.name.as_str());
                let b = concat(a.as_str(), "' does not support ");
                let c = concat(b.as_str(), other.as_str());
                Err(EngineError::UnsupportedOperation(concat(c.as_str(), " via liter-llm")))
            },
        }
    }

    /// The engine id of the model a lifecycle call names (models are remote,
    /// so loading and unloading change nothing).
    pub fn lifecycle_id(&self, model_id: &str) -> (r: String)
        ensures
            r@ == self.spec_name() + "/"@ + model_name_of(model_id@),
    {
        let name = ModelId::name(model_id);
        ModelId::canonical(self.name.as_str(), name.as_str())
    }
}

/// Whether an image reference goes to the gateway as it is: an `http://`,
/// `https://` or `data:` URL.
pub open spec fn is_passed_through(image: Seq<char>) -> bool {
    has_prefix(image, "http://"@) || has_prefix(image, "https://"@) || has_prefix(image, "data:"@)
}

/// The image reference to send as it is, when it is a URL (see
/// [`is_passed_through`]); `None` for a local file, which is inlined.
pub fn passthrough_image(image: &str) -> (r: Option<String>)
    ensures
        is_passed_through(image@) ==> (r matches Some(x) && x@ == image@),
        !is_passed_through(image@) ==> r is None,
{
    if starts_with(image, "http://") || starts_with(image, "https://") || starts_with(image, "data:") {
        Some(owned(image))
    } else {
        None
    }
}

/// The MIME type of an inlined image by its ASCII-lower-cased extension:
/// PNG, WebP or GIF by name, JPEG otherwise.
pub open spec fn inline_mime_of(ext: Option<Seq<char>>) -> Seq<char> {
    match ext {
        Some(e) => {
            let l = e.map_values(|c: char| ascii_lower(c));
            if l == "png"@ {
                "image/png"@
            } else if l == "webp"@ {
                "image/webp"@
            } else if l == "gif"@ {
                "image/gif"@
            } else {
                "image/jpeg"@
            }
        },
        None => "image/jpeg"@,
    }
}

/// A local image file inlined as a data URL:
/// `data:<mime>;base64,<the file's bytes in base64>`.
pub fn inline_image_url(path: &str, bytes: &[u8]) -> (r: String)
    ensures
        r@ == "data:"@ + inline_mime_of(extension_of(path@)) + ";base64,"@ + base64_text(bytes@),
{
    let mime = match path_extension(path) {
        Some(e) => {
            let lower = to_ascii_lowercase(e.as_str());
            assert(lower@ =~= e@.map_values(|c: char| ascii_lower(c)));
            let l = lower.as_str();
            if str_eq(l, "png") {
                "image/png"
            } else if str_eq(l, "webp") {
                "image/webp"
            } else if str_eq(l, "gif") {
                "image/gif"
            } else {
                "image/jpeg"
            }
        },
        None => "image/jpeg",
    };
    let a = concat("data:", mime);
    let b = concat(a.as_str(), ";base64,");
    let payload = encode_base64(bytes);
    concat(b.as_str(), payload.as_str())
}

/// The gateway's message roles.
#[derive(Debug, Clone, Copy, PartialEq, Eq, Structural)]
pub enum LiterRole {
    System,
    Assistant,
    User,
}

/// The gateway role of a message: `system` and `developer` are system
/// messages, `assistant` the model's, anything else the user's.
pub fn message_role(role: &str) -> (r: LiterRole)
    ensures
        r == (if role@ == "system"@ || role@ == "developer"@ {
            LiterRole::System
        } else if role@ == "assistant"@ {
            LiterRole::Assistant
        } else {
            LiterRole::User
        }),
{
    if str_eq(role, "system") || str_eq(role, "developer") {
        LiterRole::System
    } else if str_eq(role, "assistant") {
        LiterRole::Assistant
    } else {
        LiterRole::User
    }
}

/// The image detail tier of a vision request, which vendors bill by.
#[derive(Debug, Clone, Copy, PartialEq, Eq, Structural)]
pub enum DetailTier {
    Low,
    High,
    Auto,
}

/// The `detail` parameter's tier: `low` or `high` by name, `auto` otherwise.
pub fn detail_tier(param: Option<&str>) -> (r: DetailTier)
    ensures
        r == (match param {
            Some(d) => if d@ == "low"@ {
                DetailTier::Low
            } else if d@ == "high"@ {
                DetailTier::High
            } else {
                DetailTier::Auto
            },
            None => DetailTier::Auto,
        }),
{
    match param {
        Some(d) => if str_eq(d, "low") {
            DetailTier::Low
        } else if str_eq(d, "high") {
            DetailTier::High
        } else {
            DetailTier::Auto
        },
        None => DetailTier::Auto,
    }
}

/// One part of a multimodal user message.
#[derive(Debug, Clone, PartialEq, Eq)]
pub enum LiterPart {
    Text(String),
    Image(String),
}

/// An image part, by its URL.
pub open spec fn image_part() -> spec_fn(Seq<char>) -> Result<Seq<char>, Seq<char>> {
    |u: Seq<char>| Err::<Seq<char>, Seq<char>>(u)
}

/// The URLs of the images by their text.
pub open spec fn url_texts(urls: Seq<String>) -> Seq<Seq<char>> {
    urls.map_values(|u: String| u@)
}

/// The parts of a message with images: its text first, when not empty,
/// then each image.
pub open spec fn vlm_parts_of(content: Seq<char>, images: Seq<Seq<char>>) -> Seq<Result<Seq<char>, Seq<char>>> {
    if content.len() > 0 {
        seq![Ok::<Seq<char>, Seq<char>>(content)] + images.map_values(image_part())
    } else {
        images.map_values(image_part())
    }
}

/// A part by its text: text parts as `Ok`, images as `Err`.
pub open spec fn part_view(p: LiterPart) -> Result<Seq<char>, Seq<char>> {
    match p {
        LiterPart::Text(t) => Ok(t@),
        LiterPart::Image(u) => Err(u@),
    }
}

/// Parts by their text.
pub open spec fn part_views(parts: Seq<LiterPart>) -> Seq<Result<Seq<char>, Seq<char>>> {
    parts.map_values(|p: LiterPart| part_view(p))
}

/// The parts of a message with images (see [`vlm_parts_of`]).
pub fn vlm_parts(content: &str, image_urls: &Vec<String>) -> (r: Vec<LiterPart>)
    ensures
        part_views(r@) == vlm_parts_of(content@, url_texts(image_urls@)),
{
    let mut parts: Vec<LiterPart> = Vec::new();
    if content.unicode_len() > 0 {
        parts.push(LiterPart::Text(owned(content)));
    }
    let ghost start = part_views(parts@);
    let ghost urls = url_texts(image_urls@);
    let mut i: usize = 0;
    while i < image_urls.len()
        invariant
            i <= image_urls@.len(),
            urls == url_texts(image_urls@),
            part_views(parts@) == start + urls.take(i as int).map_values(image_part()),
        decreases image_urls.len() - i,
    {
        let ghost before = part_views(parts@);
        parts.push(LiterPart::Image(owned(image_urls[i].as_str())));
        assert(part_views(parts@) =~= before.push(Err::<Seq<char>, Seq<char>>(urls[i as int])));
        assert(urls.take(i as int + 1).map_values(image_part()) =~= urls.take(i as int).map_values(
            image_part(),
        ).push(Err::<Seq<char>, Seq<char>>(urls[i as int])));
        assert(part_views(parts@) =~= start + urls.take(i as int + 1).map_values(image_part()));
        i = i + 1;
    }
    assert(urls.take(urls.len() as int) =~= urls);
    assert(part_views(parts@) =~= vlm_parts_of(content@, urls));
    parts
}

/// The prompt of an image generation: the first message, else the `prompt`
/// parameter, when not empty.
pub fn image_prompt(first_message: Option<String>, param: Option<String>) -> (r: Result<String, EngineError>)
    ensures
        match (match first_message {
            Some(m) => Some(m),
            None => param,
        }) {
            Some(p) => if p@.len() > 0 {
                r matches Ok(x) && x@ == p@
            } else {
                r matches Err(EngineError::InvalidRequest(m)) && m@ == "image generation requires a prompt"@
            },
            None => (r matches Err(EngineError::InvalidRequest(m)) && m@ == "image generation requires a prompt"@),
        },
{
    let candidate = match first_message {
        Some(m) => Some(m),
        None => param,
    };
    match candidate {
        Some(p) => if p.unicode_len() > 0 {
            Ok(p)
        } else {
            Err(EngineError::InvalidRequest(owned("image generation requires a prompt")))
        },
        None => Err(EngineError::InvalidRequest(owned("image generation requires a prompt"))),
    }
}

} // verus!
