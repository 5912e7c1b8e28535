//! Local image generation through a configured command (a Stable Diffusion
//! CLI or a wrapper script), one cold process per image.
//!
//! The argument template may hold `{prompt}`, `{output}` (where the image must
//! be written), `{negative_prompt}` (default empty), `{width}` and `{height}`
//! (from `params.size` such as `"1024x1024"`, or `params.width` and
//! `params.height`).

use vstd::prelude::*;

use crate::backends::common::{
    call_verdict, check_call, choose_format, dimensions, dimensions_of, format_or, model_supports, opt_str,
    pair_texts, placeholders_nonempty, request_text, serves, strings_view, substitute_args,
    substituted_all, take_request_text,
};
use crate::catalog::{BackendFeature, Capability, ProviderKind};
use crate::config::ModelDef;
use crate::kernel::EngineError;
use crate::text::{concat, decimal, owned, u64_to_decimal};

verus! {

/// Edge of the square image made when a request gives no size.
pub const DEFAULT_EDGE: u32 = 1024;

/// The placeholders of one render and their values.
pub open spec fn image_pairs(
    prompt: Seq<char>,
    output: Seq<char>,
    negative_prompt: Seq<char>,
    width: u32,
    height: u32,
) -> Seq<(Seq<char>, Seq<char>)> {
    seq![
        ("{prompt}"@, prompt),
        ("{output}"@, output),
        ("{negative_prompt}"@, negative_prompt),
        ("{width}"@, decimal(width as nat)),
        ("{height}"@, decimal(height as nat)),
    ]
}

/// The dimensions an image request asks for (see [`dimensions_of`]).
pub fn image_dimensions(size: Option<&str>, width: Option<u64>, height: Option<u64>) -> (r: (u32, u32))
    ensures
        r == dimensions_of(opt_str(size), width, height, DEFAULT_EDGE),
{
    dimensions(size, width, height, DEFAULT_EDGE)
}

/// A provider that shells out to a local image-generation command.
pub struct LocalImageGenProvider {
    name: String,
    command: String,
    args: Vec<String>,
    output_format: String,
    output_dir: Option<String>,
    models: Vec<ModelDef>,
}

impl LocalImageGenProvider {
    /// The provider's name.
    pub closed spec fn spec_name(&self) -> Seq<char> {
        self.name@
    }

    /// The program run per image.
    pub closed spec fn spec_command(&self) -> Seq<char> {
        self.command@
    }

    /// The argument template.
    pub closed spec fn spec_args(&self) -> Seq<Seq<char>> {
        strings_view(self.args@)
    }

    /// The image format (file extension).
    pub closed spec fn spec_output_format(&self) -> Seq<char> {
        self.output_format@
    }

    /// The configured artifact directory.
    pub closed spec fn spec_output_dir(&self) -> Option<String> {
        self.output_dir
    }

    /// The configured models.
    pub closed spec fn spec_models(&self) -> Seq<ModelDef> {
        self.models@
    }

    /// A provider running `command` with the argument template `args`; the
    /// format is `png` unless a non-empty one is given, and images go under
    /// `output_dir` (the system temp dir when `None` or empty).
    pub fn new(
        name: &str,
        command: &str,
        args: Vec<String>,
        output_format: Option<String>,
        output_dir: Option<String>,
        models: Vec<ModelDef>,
    ) -> (r: Self)
        ensures
            r.spec_name() == name@,
            r.spec_command() == command@,
            r.spec_args() == strings_view(args@),
            r.spec_output_format() == format_or(output_format, "png"@),
            r.spec_output_dir() == output_dir,
            r.spec_models() == models@,
    {
        LocalImageGenProvider {
            name: owned(name),
            command: owned(command),
            args,
            output_format: choose_format(output_format, "png"),
            output_dir,
            models,
        }
    }

    /// The provider's name.
    pub fn name(&self) -> (r: &str)
        ensures
            r@ == self.spec_name(),
    {
        self.name.as_str()
    }

    /// The program run per image.
    pub fn command(&self) -> (r: &str)
        ensures
            r@ == self.spec_command(),
    {
        self.command.as_str()
    }

    /// The image format (file extension).
    pub fn output_format(&self) -> (r: &str)
        ensures
            r@ == self.spec_output_format(),
    {
        self.output_format.as_str()
    }

    /// The configured artifact directory.
    pub fn output_dir(&self) -> (r: &Option<String>)
        ensures
            *r == self.spec_output_dir(),
    {
        &self.output_dir
    }

    /// The provider's kind.
    pub fn kind(&self) -> (r: ProviderKind)
        ensures
            r == ProviderKind::LocalImageGen,
    {
        ProviderKind::LocalImageGen
    }

    /// What the provider supports beyond calls.
    pub fn features(&self) -> (r: Vec<BackendFeature>)
        ensures
            r@ == seq![
                BackendFeature::Discovery,
                BackendFeature::Load,
                BackendFeature::Unload,
                BackendFeature::MemoryReporting,
            ],
    {
        vec![BackendFeature::Discovery, BackendFeature::Load, BackendFeature::Unload, BackendFeature::MemoryReporting]
    }

    /// Whether a configured model called `model_name` serves `capability`.
    pub fn model_supports(&self, model_name: &str, capability: Capability) -> (r: bool)
        ensures
            r == serves(self.spec_models(), model_name@, capability),
    {
        model_supports(self.models.as_slice(), model_name, capability)
    }

    /// Check a call for `requested` (default: image generation), giving the
    /// model name to run.
    pub fn check_call(&self, model_id: &str, requested: Option<Capability>) -> (r: Result<String, EngineError>)
        ensures
            call_verdict(self.spec_name(), self.spec_models(), model_id@, requested, Capability::ImageGen) matches Ok(n) ==> (
            r matches Ok(x) && x@ == n),
            call_verdict(self.spec_name(), self.spec_models(), model_id@, requested, Capability::ImageGen) matches Err(m) ==> (
            r matches Err(EngineError::UnsupportedOperation(e)) && e@ == m),
    {
        check_call(self.name.as_str(), self.models.as_slice(), model_id, requested, Capability::ImageGen)
    }

    /// The prompt of a request: its first message, else `params.prompt`; an
    /// invalid request when that is missing or blank.
    pub fn prompt(first_message: Option<String>, prompt_param: Option<String>) -> (r: Result<String, EngineError>)
        ensures
            request_text(first_message, prompt_param) matches Some(t) ==> (r matches Ok(x) && x@ == t),
            request_text(first_message, prompt_param) is None ==> (r matches Err(
                EngineError::InvalidRequest(m),
            ) && m@ == "image_gen requires a prompt"@),
    {
        take_request_text(first_message, prompt_param, "image_gen requires a prompt")
    }

    /// The file name of an image artifact with the unique stem `id`.
    pub fn artifact_name(&self, id: &str) -> (r: String)
        ensures
            r@ == "mofa_img_"@ + id@ + "."@ + self.spec_output_format(),
    {
        let a = concat("mofa_img_", id);
        let b = concat(a.as_str(), ".");
        concat(b.as_str(), self.output_format.as_str())
    }

    /// The arguments of one render: the template with every placeholder
    /// substituted.
    pub fn resolve_args(&self, prompt: &str, output: &str, negative_prompt: &str, width: u32, height: u32) -> (r: Vec<
        String,
    >)
        ensures
            strings_view(r@) == substituted_all(
                self.spec_args(),
                image_pairs(prompt@, output@, negative_prompt@, width, height),
            ),
    {
        proof {
            reveal_strlit("{prompt}");
            reveal_strlit("{output}");
            reveal_strlit("{negative_prompt}");
            reveal_strlit("{width}");
            reveal_strlit("{height}");
        }
        let pairs = vec![
            (owned("{prompt}"), owned(prompt)),
            (owned("{output}"), owned(output)),
            (owned("{negative_prompt}"), owned(negative_prompt)),
            (owned("{width}"), u64_to_decimal(width as u64)),
            (owned("{height}"), u64_to_decimal(height as u64)),
        ];
        assert(pair_texts(pairs@) =~= image_pairs(prompt@, output@, negative_prompt@, width, height));
        assert(placeholders_nonempty(pairs@));
        substitute_args(&self.args, &pairs)
    }
}

} // verus!
