//! Local speech recognition through a configured command (a FunASR or
//! whisper.cpp-style CLI).
//!
//! The argument template may hold `{input}` (the audio file), `{output}` (a
//! file the command writes the transcript to; without it stdout is the
//! transcript) and `{language}` (default `auto`). When a request asks for
//! speaker diarization the configured `diarize_args` are appended with the
//! same substitution.

use vstd::prelude::*;

use crate::backends::common::{call_verdict, check_call, model_supports, serves};
use crate::catalog::{BackendFeature, Capability, ProviderKind};
use crate::config::ModelDef;
use crate::kernel::EngineError;
use crate::config::opt_view;
use crate::text::{concat, contains_seq, find_seq, owned, replace_all, replaced, trim, trimmed};

verus! {

/// A text result by its views.
pub open spec fn text_result(r: Result<String, String>) -> Result<Seq<char>, Seq<char>> {
    match r {
        Ok(t) => Ok(t@),
        Err(e) => Err(e@),
    }
}

/// What a finished transcription gives: the trimmed transcript, or the
/// detail of the provider error. A command that could not be started, a
/// failed exit (with its status and trimmed stderr), an unreadable
/// transcript file, and a transcript that is empty once trimmed are errors,
/// in that order of precedence.
pub open spec fn asr_outcome_of(
    command: Seq<char>,
    spawn_error: Option<Seq<char>>,
    exit_ok: bool,
    exit_status: Seq<char>,
    stderr: Seq<char>,
    transcript: Result<Seq<char>, Seq<char>>,
) -> Result<Seq<char>, Seq<char>> {
    match spawn_error {
        Some(e) => Err("failed to spawn '"@ + command + "': "@ + e),
        None => if !exit_ok {
            Err("ASR command exited with "@ + exit_status + ": "@ + trimmed(stderr))
        } else {
            match transcript {
                Err(e) => Err("cannot read ASR transcript: "@ + e),
                Ok(t) => if trimmed(t).len() == 0 {
                    Err("ASR command produced no transcript"@)
                } else {
                    Ok(trimmed(t))
                },
            }
        },
    }
}

/// The audio file of a transcription: the request's `input_file` when it is
/// present and not empty, else an invalid request.
pub fn asr_input_file(input_file: Option<String>) -> (r: Result<String, EngineError>)
    ensures
        match input_file {
            Some(f) if f@.len() > 0 => r matches Ok(x) && x@ == f@,
            _ => r matches Err(EngineError::InvalidRequest(m)) && m@ == "ASR requires input_file"@,
        },
{
    match input_file {
        Some(f) => {
            if f.as_str().unicode_len() > 0 {
                return Ok(f);
            }
        },
        None => {},
    }
    Err(EngineError::InvalidRequest(owned("ASR requires input_file")))
}

/// One argument of the template with the placeholders substituted, in the
/// order `{input}`, `{output}`, `{language}`.
pub open spec fn asr_arg(arg: Seq<char>, input: Seq<char>, output: Seq<char>, language: Seq<char>) -> Seq<
    char,
> {
    replaced(
        replaced(replaced(arg, "{input}"@, input), "{output}"@, output),
        "{language}"@,
        language,
    )
}

/// The characters of each string.
pub open spec fn texts(v: Seq<String>) -> Seq<Seq<char>> {
    v.map_values(|s: String| s@)
}

/// A provider that shells out to a local ASR command.
pub struct LocalAsrProvider {
    name: String,
    command: String,
    args: Vec<String>,
    diarize_args: Vec<String>,
    output_dir: Option<String>,
    models: Vec<ModelDef>,
}

impl LocalAsrProvider {
    /// The provider's name.
    pub closed spec fn spec_name(&self) -> Seq<char> {
        self.name@
    }

    /// The program run per transcription.
    pub closed spec fn spec_command(&self) -> Seq<char> {
        self.command@
    }

    /// The base argument template.
    pub closed spec fn spec_args(&self) -> Seq<Seq<char>> {
        texts(self.args@)
    }

    /// The arguments appended for diarization.
    pub closed spec fn spec_diarize_args(&self) -> Seq<Seq<char>> {
        texts(self.diarize_args@)
    }

    /// The configured artifact directory.
    pub closed spec fn spec_output_dir(&self) -> Option<String> {
        self.output_dir
    }

    /// The configured models.
    pub closed spec fn spec_models(&self) -> Seq<ModelDef> {
        self.models@
    }

    /// A provider running `command` with the argument template `args`, writing
    /// transcripts under `output_dir` (the artifact directory when `None`).
    pub fn new(name: &str, command: &str, args: Vec<String>, output_dir: Option<String>, models: Vec<ModelDef>) -> (r: Self)
        ensures
            r.spec_name() == name@,
            r.spec_command() == command@,
            r.spec_args() == texts(args@),
            r.spec_diarize_args() == Seq::<Seq<char>>::empty(),
            r.spec_output_dir() == output_dir,
            r.spec_models() == models@,
    {
        let r = LocalAsrProvider {
            name: owned(name),
            command: owned(command),
            args,
            diarize_args: Vec::new(),
            output_dir,
            models,
        };
        assert(r.spec_diarize_args() =~= Seq::<Seq<char>>::empty());
        r
    }

    /// The same provider, appending `diarize_args` when diarization is asked.
    pub fn with_diarize_args(self, diarize_args: Vec<String>) -> (r: Self)
        ensures
            r.spec_name() == self.spec_name(),
            r.spec_command() == self.spec_command(),
            r.spec_args() == self.spec_args(),
            r.spec_diarize_args() == texts(diarize_args@),
            r.spec_output_dir() == self.spec_output_dir(),
            r.spec_models() == self.spec_models(),
    {
        LocalAsrProvider { diarize_args, ..self }
    }

    /// The provider's name.
    pub fn name(&self) -> (r: &str)
        ensures
            r@ == self.spec_name(),
    {
        self.name.as_str()
    }

    /// The program run per transcription.
    pub fn command(&self) -> (r: &str)
        ensures
            r@ == self.spec_command(),
    {
        self.command.as_str()
    }

    /// The configured artifact directory.
    pub fn output_dir(&self) -> (r: &Option<String>)
        ensures
            *r == self.spec_output_dir(),
    {
        &self.output_dir
    }

    /// The provider's kind.
    pub fn kind(&self) -> (r: ProviderKind)
        ensures
            r == ProviderKind::LocalAsr,
    {
        ProviderKind::LocalAsr
    }

    /// What the provider supports beyond calls.
    pub fn features(&self) -> (r: Vec<BackendFeature>)
        ensures
            r@ == seq![
                BackendFeature::Discovery,
                BackendFeature::Load,
                BackendFeature::Unload,
                BackendFeature::MemoryReporting,
            ],
    {
        vec![BackendFeature::Discovery, BackendFeature::Load, BackendFeature::Unload, BackendFeature::MemoryReporting]
    }

    /// Whether a configured model called `model_name` serves `capability`.
    pub fn model_supports(&self, model_name: &str, capability: Capability) -> (r: bool)
        ensures
            r == serves(self.spec_models(), model_name@, capability),
    {
        model_supports(self.models.as_slice(), model_name, capability)
    }

    /// Check a call for `requested` (default: speech recognition), giving the
    /// model name to run.
    pub fn check_call(&self, model_id: &str, requested: Option<Capability>) -> (r: Result<String, EngineError>)
        ensures
            call_verdict(self.spec_name(), self.spec_models(), model_id@, requested, Capability::Asr) matches Ok(n) ==> (
            r matches Ok(x) && x@ == n),
            call_verdict(self.spec_name(), self.spec_models(), model_id@, requested, Capability::Asr) matches Err(m) ==> (
            r matches Err(EngineError::UnsupportedOperation(e)) && e@ == m),
    {
        check_call(self.name.as_str(), self.models.as_slice(), model_id, requested, Capability::Asr)
    }

    /// Whether any argument (base or diarization) references `{output}`, so
    /// that the transcript is read from a file rather than from stdout.
    pub fn uses_output_file(&self) -> (r: bool)
        ensures
            r == ((exists|i: int| 0 <= i < self.spec_args().len() && contains_seq(#[trigger] self.spec_args()[i], "{output}"@))
                || (exists|i: int| 0 <= i < self.spec_diarize_args().len() && contains_seq(
                #[trigger] self.spec_diarize_args()[i],
                "{output}"@,
            ))),
    {
        let mut i: usize = 0;
        while i < self.args.len()
            invariant
                i <= self.args@.len(),
                forall|j: int| 0 <= j < i ==> !contains_seq(#[trigger] self.spec_args()[j], "{output}"@),
            decreases self.args.len() - i,
        {
            if find_seq(self.args[i].as_str(), "{output}").is_some() {
                assert(contains_seq(self.spec_args()[i as int], "{output}"@));
                return true;
            }
            i = i + 1;
        }
        let mut k: usize = 0;
        while k < self.diarize_args.len()
            invariant
                k <= self.diarize_args@.len(),
                forall|j: int| 0 <= j < self.spec_args().len() ==> !contains_seq(#[trigger] self.spec_args()[j], "{output}"@),
                forall|j: int| 0 <= j < k ==> !contains_seq(#[trigger] self.spec_diarize_args()[j], "{output}"@),
            decreases self.diarize_args.len() - k,
        {
            if find_seq(self.diarize_args[k].as_str(), "{output}").is_some() {
                assert(contains_seq(self.spec_diarize_args()[k as int], "{output}"@));
                return true;
            }
            k = k + 1;
        }
        false
    }

    /// The outcome of a finished transcription command (see
    /// [`asr_outcome_of`]): a provider error of this provider, or the trimmed
    /// transcript.
    pub fn transcript_outcome(
        &self,
        spawn_error: Option<String>,
        exit_ok: bool,
        exit_status: &str,
        stderr: &str,
        transcript: Result<String, String>,
    ) -> (r: Result<String, EngineError>)
        ensures
            match asr_outcome_of(
                self.spec_command(),
                opt_view(spawn_error),
                exit_ok,
                exit_status@,
                stderr@,
                text_result(transcript),
            ) {
                Ok(t) => r matches Ok(x) && x@ == t,
                Err(d) => r matches Err(EngineError::ProviderError { provider, detail }) && provider@
                    == self.spec_name() && detail@ == d,
            },
    {
        let detail = match spawn_error {
            Some(e) => {
                let a = concat("failed to spawn '", self.command.as_str());
                let b = concat(a.as_str(), "': ");
                concat(b.as_str(), e.as_str())
            },
            None => {
                if !exit_ok {
                    let a = concat("ASR command exited with ", exit_status);
                    let b = concat(a.as_str(), ": ");
                    let t = trim(stderr);
                    concat(b.as_str(), t.as_str())
                } else {
                    match transcript {
                        Err(e) => concat("cannot read ASR transcript: ", e.as_str()),
                        Ok(text) => {
                            let t = trim(text.as_str());
                            if t.as_str().unicode_len() == 0 {
                                owned("ASR command produced no transcript")
                            } else {
                                return Ok(t);
                            }
                        },
                    }
                }
            },
        };
        Err(EngineError::ProviderError { provider: self.name.clone(), detail })
    }

    /// The arguments of one transcription: the base template with the
    /// placeholders substituted, followed, when `diarize` is set, by the
    /// substituted diarization arguments.
    pub fn resolve_args(&self, input: &str, output: &str, language: &str, diarize: bool) -> (r: Vec<String>)
        ensures
            texts(r@) == self.spec_args().map_values(|a: Seq<char>| asr_arg(a, input@, output@, language@))
                + if diarize {
                self.spec_diarize_args().map_values(|a: Seq<char>| asr_arg(a, input@, output@, language@))
            } else {
                Seq::<Seq<char>>::empty()
            },
    {
        let mut out: Vec<String> = Vec::new();
        substitute_all(&self.args, input, output, language, &mut out);
        if diarize {
            substitute_all(&self.diarize_args, input, output, language, &mut out);
        } else {
            assert(texts(out@) + Seq::<Seq<char>>::empty() =~= texts(out@));
        }
        out
    }
}

fn substitute(arg: &str, input: &str, output: &str, language: &str) -> (r: String)
    ensures
        r@ == asr_arg(arg@, input@, output@, language@),
{
    proof {
        reveal_strlit("{input}");
        reveal_strlit("{output}");
        reveal_strlit("{language}");
    }
    let a = replace_all(arg, "{input}", input);
    let b = replace_all(a.as_str(), "{output}", output);
    replace_all(b.as_str(), "{language}", language)
}

/// Append every argument of `args`, substituted, to `out`.
fn substitute_all(args: &Vec<String>, input: &str, output: &str, language: &str, out: &mut Vec<String>)
    ensures
        texts(final(out)@) == texts(old(out)@) + texts(args@).map_values(
            |a: Seq<char>| asr_arg(a, input@, output@, language@),
        ),
{
    let ghost start = texts(out@);
    let mut i: usize = 0;
    while i < args.len()
        invariant
            i <= args@.len(),
            texts(out@) == start + texts(args@).take(i as int).map_values(
                |a: Seq<char>| asr_arg(a, input@, output@, language@),
            ),
        decreases args.len() - i,
    {
        let s = substitute(args[i].as_str(), input, output, language);
        let ghost before = out@;
        out.push(s);
        assert(texts(args@).take(i as int + 1) =~= texts(args@).take(i as int).push(args@[i as int]@));
        assert(texts(out@) =~= texts(before).push(s@));
        assert(texts(args@).take(i as int + 1).map_values(|a: Seq<char>| asr_arg(a, input@, output@, language@))
            =~= texts(args@).take(i as int).map_values(|a: Seq<char>| asr_arg(a, input@, output@, language@)).push(
            asr_arg(args@[i as int]@, input@, output@, language@),
        ));
        i = i + 1;
    }
    assert(texts(args@).take(args@.len() as int) =~= texts(args@));
}

} // verus!
