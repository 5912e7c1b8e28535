//! Local speech synthesis through a configured command, one cold process per
//! synthesis.
//!
//! The argument template may hold `{text}` (the input text), `{text_file}` (a
//! temporary file holding the text, written only when the template asks for
//! it) and `{output}` (where the audio must be written).

use vstd::prelude::*;

use crate::backends::common::{
    call_verdict, check_call, choose_format, format_or, model_supports, pair_texts,
    placeholders_nonempty, request_text, serves, strings_view, substitute_args, substituted_all,
    take_request_text,
};
use crate::catalog::{BackendFeature, Capability, ProviderKind};
use crate::config::ModelDef;
use crate::kernel::EngineError;
use crate::text::{concat, contains_seq, find_seq, owned};

verus! {

/// The placeholders of one synthesis and their values.
pub open spec fn tts_pairs(text: Seq<char>, text_file: Seq<char>, output: Seq<char>) -> Seq<
    (Seq<char>, Seq<char>),
> {
    seq![("{text}"@, text), ("{text_file}"@, text_file), ("{output}"@, output)]
}

/// A provider that shells out to a local speech-synthesis command.
pub struct LocalTtsProvider {
    name: String,
    command: String,
    args: Vec<String>,
    output_format: String,
    output_dir: Option<String>,
    models: Vec<ModelDef>,
}

impl LocalTtsProvider {
    /// The provider's name.
    pub closed spec fn spec_name(&self) -> Seq<char> {
        self.name@
    }

    /// The program run per synthesis.
    pub closed spec fn spec_command(&self) -> Seq<char> {
        self.command@
    }

    /// The argument template.
    pub closed spec fn spec_args(&self) -> Seq<Seq<char>> {
        strings_view(self.args@)
    }

    /// The audio format (file extension).
    pub closed spec fn spec_output_format(&self) -> Seq<char> {
        self.output_format@
    }

    /// The configured artifact directory.
    pub closed spec fn spec_output_dir(&self) -> Option<String> {
        self.output_dir
    }

    /// The configured models.
    pub closed spec fn spec_models(&self) -> Seq<ModelDef> {
        self.models@
    }

    /// A provider running `command` with the argument template `args`; the
    /// format is `wav` unless a non-empty one is given, and audio goes under
    /// `output_dir` (the artifact directory when `None`).
    pub fn new(
        name: &str,
        command: &str,
        args: Vec<String>,
        output_format: Option<String>,
        output_dir: Option<String>,
        models: Vec<ModelDef>,
    ) -> (r: Self)
        ensures
            r.spec_name() == name@,
            r.spec_command() == command@,
            r.spec_args() == strings_view(args@),
            r.spec_output_format() == format_or(output_format, "wav"@),
            r.spec_output_dir() == output_dir,
            r.spec_models() == models@,
    {
        LocalTtsProvider {
            name: owned(name),
            command: owned(command),
            args,
            output_format: choose_format(output_format, "wav"),
            output_dir,
            models,
        }
    }

    /// The provider's name.
    pub fn name(&self) -> (r: &str)
        ensures
            r@ == self.spec_name(),
    {
        self.name.as_str()
    }

    /// The program run per synthesis.
    pub fn command(&self) -> (r: &str)
        ensures
            r@ == self.spec_command(),
    {
        self.command.as_str()
    }

    /// The audio format (file extension).
    pub fn output_format(&self) -> (r: &str)
        ensures
            r@ == self.spec_output_format(),
    {
        self.output_format.as_str()
    }

    /// The configured artifact directory.
    pub fn output_dir(&self) -> (r: &Option<String>)
        ensures
            *r == self.spec_output_dir(),
    {
        &self.output_dir
    }

    /// The provider's kind.
    pub fn kind(&self) -> (r: ProviderKind)
        ensures
            r == ProviderKind::LocalTts,
    {
        ProviderKind::LocalTts
    }

    /// What the provider supports beyond calls.
    pub fn features(&self) -> (r: Vec<BackendFeature>)
        ensures
            r@ == seq![
                BackendFeature::Discovery,
                BackendFeature::Load,
                BackendFeature::Unload,
                BackendFeature::MemoryReporting,
            ],
    {
        vec![BackendFeature::Discovery, BackendFeature::Load, BackendFeature::Unload, BackendFeature::MemoryReporting]
    }

    /// Whether a configured model called `model_name` serves `capability`.
    pub fn model_supports(&self, model_name: &str, capability: Capability) -> (r: bool)
        ensures
            r == serves(self.spec_models(), model_name@, capability),
    {
        model_supports(self.models.as_slice(), model_name, capability)
    }

    /// Check a call for `requested` (default: speech synthesis), giving the
    /// model name to run.
    pub fn check_call(&self, model_id: &str, requested: Option<Capability>) -> (r: Result<String, EngineError>)
        ensures
            call_verdict(self.spec_name(), self.spec_models(), model_id@, requested, Capability::Tts) matches Ok(n) ==> (
            r matches Ok(x) && x@ == n),
            call_verdict(self.spec_name(), self.spec_models(), model_id@, requested, Capability::Tts) matches Err(m) ==> (
            r matches Err(EngineError::UnsupportedOperation(e)) && e@ == m),
    {
        check_call(self.name.as_str(), self.models.as_slice(), model_id, requested, Capability::Tts)
    }

    /// The text of a request: its first message, else `params.input`; an
    /// invalid request when that is missing or blank.
    pub fn text(first_message: Option<String>, input_param: Option<String>) -> (r: Result<String, EngineError>)
        ensures
            request_text(first_message, input_param) matches Some(t) ==> (r matches Ok(x) && x@ == t),
            request_text(first_message, input_param) is None ==> (r matches Err(
                EngineError::InvalidRequest(m),
            ) && m@ == "TTS requires text input"@),
    {
        take_request_text(first_message, input_param, "TTS requires text input")
    }

    /// Whether the template asks for the text in a file (`{text_file}`).
    pub fn needs_text_file(&self) -> (r: bool)
        ensures
            r == exists|i: int| 0 <= i < self.spec_args().len() && contains_seq(#[trigger] self.spec_args()[i], "{text_file}"@),
    {
        let mut i: usize = 0;
        while i < self.args.len()
            invariant
                i <= self.args@.len(),
                forall|j: int| 0 <= j < i ==> !contains_seq(#[trigger] self.spec_args()[j], "{text_file}"@),
            decreases self.args.len() - i,
        {
            if find_seq(self.args[i].as_str(), "{text_file}").is_some() {
                assert(contains_seq(self.spec_args()[i as int], "{text_file}"@));
                return true;
            }
            i = i + 1;
        }
        false
    }

    /// The file name of the temporary text file with the unique stem `id`.
    pub fn text_file_name(&self, id: &str) -> (r: String)
        ensures
            r@ == "mofa_tts_"@ + id@ + ".txt"@,
    {
        let a = concat("mofa_tts_", id);
        concat(a.as_str(), ".txt")
    }

    /// The file name of an audio artifact with the unique stem `id`.
    pub fn artifact_name(&self, id: &str) -> (r: String)
        ensures
            r@ == "mofa_tts_"@ + id@ + "."@ + self.spec_output_format(),
    {
        let a = concat("mofa_tts_", id);
        let b = concat(a.as_str(), ".");
        concat(b.as_str(), self.output_format.as_str())
    }

    /// The arguments of one synthesis: the template with every placeholder
    /// substituted.
    pub fn resolve_args(&self, text: &str, text_file: &str, output: &str) -> (r: Vec<String>)
        ensures
            strings_view(r@) == substituted_all(self.spec_args(), tts_pairs(text@, text_file@, output@)),
    {
        proof {
            reveal_strlit("{text}");
            reveal_strlit("{text_file}");
            reveal_strlit("{output}");
        }
        let pairs = vec![
            (owned("{text}"), owned(text)),
            (owned("{text_file}"), owned(text_file)),
            (owned("{output}"), owned(output)),
        ];
        assert(pair_texts(pairs@) =~= tts_pairs(text@, text_file@, output@));
        assert(placeholders_nonempty(pairs@));
        substitute_args(&self.args, &pairs)
    }
}

} // verus!
