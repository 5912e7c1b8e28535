//! The backends of the first engine: a local Ollama server and an OpenAI
//! account. Each keeps a registry of the models it offers, marks them loaded
//! or available, and turns a run request into the call it makes.

use vstd::prelude::*;

use crate::backends::cloud_video_gen::{strip_trailing_slashes, without_trailing_slashes};
use crate::kernel::{
    BackendType, EngineError, ModelInfo, ModelInfoView, ModelInput, ModelPriority, ModelStatus,
    ModelType, model_views,
};
use crate::paths::{file_name_of, path_file_name};
use crate::shared_map::{model_table, model_table_get, model_table_insert, model_table_new, no_models, ModelTable};
use crate::text::{concat, find_seq, first_occurrence, owned, substring};

verus! {

/// One turn of a chat.
#[derive(Debug, Clone)]
pub struct ChatTurn {
    pub role: String,
    pub content: String,
}

/// The turns of a chat: the system prompt, when given, then the user's text.
pub open spec fn chat_turns_of(prompt: Option<String>, text: Seq<char>) -> Seq<(Seq<char>, Seq<char>)> {
    match prompt {
        Some(p) => seq![("system"@, p@), ("user"@, text)],
        None => seq![("user"@, text)],
    }
}

/// The turns by their text.
pub open spec fn turn_views(turns: Seq<ChatTurn>) -> Seq<(Seq<char>, Seq<char>)> {
    turns.map_values(|t: ChatTurn| (t.role@, t.content@))
}

/// The turns of a chat (see [`chat_turns_of`]).
pub fn chat_turns(prompt: &Option<String>, text: &str) -> (r: Vec<ChatTurn>)
    ensures
        turn_views(r@) == chat_turns_of(*prompt, text@),
{
    let mut turns: Vec<ChatTurn> = Vec::new();
    if let Some(p) = prompt {
        turns.push(ChatTurn { role: owned("system"), content: owned(p.as_str()) });
    }
    turns.push(ChatTurn { role: owned("user"), content: owned(text) });
    assert(turn_views(turns@) =~= chat_turns_of(*prompt, text@));
    turns
}

/// The registry after `infos` are entered in order, each under its id.
pub open spec fn entered(m: Map<Seq<char>, ModelInfoView>, infos: Seq<ModelInfoView>) -> Map<
    Seq<char>,
    ModelInfoView,
>
    decreases infos.len(),
{
    if infos.len() == 0 {
        m
    } else {
        entered(m, infos.drop_last()).insert(infos.last().id, infos.last())
    }
}

/// The registry after the model `id`, if present, takes `status`.
pub open spec fn with_status(m: Map<Seq<char>, ModelInfoView>, id: Seq<char>, status: ModelStatus) -> Map<
    Seq<char>,
    ModelInfoView,
> {
    if m.contains_key(id) {
        m.insert(id, ModelInfoView { status, ..m[id] })
    } else {
        m
    }
}

/// Give the model `id` in `table`, if present, the status `status`.
fn set_status(table: &mut ModelTable, id: &str, status: ModelStatus)
    ensures
        model_table(*final(table)) == with_status(model_table(*old(table)), id@, status),
{
    match model_table_get(table, id) {
        Some(info) => {
            let updated = ModelInfo { status, ..info };
            model_table_insert(table, owned(id), updated);
            assert(model_table(*table) =~= with_status(model_table(*old(table)), id@, status));
        },
        None => {},
    }
}

/// The name of an Ollama tag without its variant: the text before its
/// first `:`.
pub open spec fn clean_tag(tag: Seq<char>) -> Seq<char> {
    match first_occurrence(tag, ":"@) {
        Some(i) => tag.take(i),
        None => tag,
    }
}

/// The record of a listed Ollama model: id `ollama:<clean name>`, a
/// language model, available, of the listed size, normal priority.
pub open spec fn ollama_info(tag: Seq<char>, size: u64) -> ModelInfoView {
    ModelInfoView {
        id: "ollama:"@ + clean_tag(tag),
        name: clean_tag(tag),
        model_type: ModelType::Llm,
        backend: BackendType::Ollama,
        status: ModelStatus::Available,
        memory_bytes: size,
        priority: ModelPriority::Normal,
    }
}

/// The records of the listed models, in order.
pub open spec fn ollama_infos(tags: Seq<(String, u64)>) -> Seq<ModelInfoView> {
    tags.map_values(|t: (String, u64)| ollama_info(t.0@, t.1))
}

/// A local Ollama server and the models it listed.
pub struct OllamaBackend {
    base_url: String,
    models: ModelTable,
}

impl OllamaBackend {
    pub closed spec fn spec_base_url(&self) -> Seq<char> {
        self.base_url@
    }

    /// The registry by model id.
    pub closed spec fn spec_models(&self) -> Map<Seq<char>, ModelInfoView> {
        model_table(self.models)
    }

    /// A backend for the server at `base_url` (trailing slashes dropped),
    /// with no models yet.
    pub fn new(base_url: &str) -> (r: Self)
        ensures
            r.spec_base_url() == without_trailing_slashes(base_url@),
            r.spec_models() == no_models(),
    {
        OllamaBackend { base_url: strip_trailing_slashes(base_url), models: model_table_new() }
    }

    pub fn base_url(&self) -> (r: &str)
        ensures
            r@ == self.spec_base_url(),
    {
        self.base_url.as_str()
    }

    pub fn backend_type(&self) -> (r: BackendType)
        ensures
            r == BackendType::Ollama,
    {
        BackendType::Ollama
    }

    /// Language and vision models.
    pub fn supports_type(&self, model_type: ModelType) -> (r: bool)
        ensures
            r == (model_type == ModelType::Llm || model_type == ModelType::Vlm),
    {
        match model_type {
            ModelType::Llm | ModelType::Vlm => true,
            _ => false,
        }
    }

    /// Enter the models the server listed (tag and size), in order, and
    /// return their records (see [`ollama_info`]).
    pub fn register(&mut self, tags: &Vec<(String, u64)>) -> (r: Vec<ModelInfo>)
        ensures
            model_views(r@) == ollama_infos(tags@),
            final(self).spec_models() == entered(old(self).spec_models(), ollama_infos(tags@)),
            final(self).spec_base_url() == old(self).spec_base_url(),
    {
        let mut out: Vec<ModelInfo> = Vec::new();
        let mut i: usize = 0;
        while i < tags.len()
            invariant
                i <= tags@.len(),
                model_views(out@) == ollama_infos(tags@.take(i as int)),
                model_table(self.models) == entered(model_table(old(self).models), ollama_infos(tags@.take(i as int))),
                self.base_url@ == old(self).base_url@,
            decreases tags.len() - i,
        {
            let ghost prefix = ollama_infos(tags@.take(i as int + 1));
            assert(prefix.drop_last() =~= ollama_infos(tags@.take(i as int)));
            let info = ollama_model_info(tags[i].0.as_str(), tags[i].1);
            assert(tags@.take(i as int + 1)[i as int] == tags@[i as int]);
            assert(prefix[i as int] == info@);
            model_table_insert(&mut self.models, owned(info.id.as_str()), info.duplicate());
            let ghost before = model_views(out@);
            let ghost iv = info@;
            out.push(info);
            assert(model_views(out@) =~= before.push(iv));
            assert(before.push(iv) =~= prefix);
            i = i + 1;
        }
        assert(tags@.take(tags@.len() as int) =~= tags@);
        out
    }

    /// Mark a registered model loaded.
    pub fn load_model(&mut self, model_id: &str)
        ensures
            final(self).spec_models() == with_status(old(self).spec_models(), model_id@, ModelStatus::Loaded),
            final(self).spec_base_url() == old(self).spec_base_url(),
    {
        set_status(&mut self.models, model_id, ModelStatus::Loaded);
    }

    /// Mark a registered model available again.
    pub fn unload_model(&mut self, model_id: &str)
        ensures
            final(self).spec_models() == with_status(old(self).spec_models(), model_id@, ModelStatus::Available),
            final(self).spec_base_url() == old(self).spec_base_url(),
    {
        set_status(&mut self.models, model_id, ModelStatus::Available);
    }

    /// The chat a run makes: the registered model's name and the turns (the
    /// system prompt, when given, then the input text). An unregistered
    /// model is not found; a run without text is invalid.
    pub fn chat_plan(&self, model_id: &str, input: &ModelInput) -> (r: Result<(String, Vec<ChatTurn>), EngineError>)
        ensures
            !self.spec_models().contains_key(model_id@) ==> (r matches Err(EngineError::ModelNotFound(m))
                && m@ == model_id@),
            self.spec_models().contains_key(model_id@) && input.text is None ==> (r matches Err(
                EngineError::InvalidInput(m),
            ) && m@ == "text input required for LLM"@),
            self.spec_models().contains_key(model_id@) ==> (input.text matches Some(t) ==> (r matches Ok(p)
                && p.0@ == self.spec_models()[model_id@].name && turn_views(p.1@) == chat_turns_of(
                input.prompt,
                t@,
            ))),
    {
        let info = match model_table_get(&self.models, model_id) {
            Some(i) => i,
            None => return Err(EngineError::ModelNotFound(owned(model_id))),
        };
        match &input.text {
            Some(t) => Ok((info.name, chat_turns(&input.prompt, t.as_str()))),
            None => Err(EngineError::InvalidInput(owned("text input required for LLM"))),
        }
    }
}

/// The record of a listed Ollama model (see [`ollama_info`]).
pub fn ollama_model_info(tag: &str, size: u64) -> (r: ModelInfo)
    ensures
        r@ == ollama_info(tag@, size),
{
    proof {
        reveal_strlit(":");
    }
    let clean = match find_seq(tag, ":") {
        Some(i) => substring(tag, 0, i),
        None => owned(tag),
    };
    assert(clean@ =~= clean_tag(tag@));
    ModelInfo {
        id: concat("ollama:", clean.as_str()),
        name: clean,
        model_type: ModelType::Llm,
        backend: BackendType::Ollama,
        status: ModelStatus::Available,
        memory_bytes: size,
        priority: ModelPriority::Normal,
    }
}

/// The models an OpenAI account offers out of the box.
pub open spec fn openai_defaults() -> Seq<ModelInfoView> {
    seq![
        openai_info("openai:gpt-4o"@, "gpt-4o"@, ModelType::Llm),
        openai_info("openai:gpt-4o-mini"@, "gpt-4o-mini"@, ModelType::Llm),
        openai_info("openai:tts-1"@, "tts-1"@, ModelType::Tts),
        openai_info("openai:tts-1-hd"@, "tts-1-hd"@, ModelType::Tts),
        openai_info("openai:whisper-1"@, "whisper-1"@, ModelType::Asr),
    ]
}

/// The record of a built-in OpenAI model: available, no local memory,
/// normal priority.
pub open spec fn openai_info(id: Seq<char>, name: Seq<char>, t: ModelType) -> ModelInfoView {
    ModelInfoView {
        id,
        name,
        model_type: t,
        backend: BackendType::OpenAi,
        status: ModelStatus::Available,
        memory_bytes: 0,
        priority: ModelPriority::Normal,
    }
}

fn openai_model(id: &str, name: &str, t: ModelType) -> (r: ModelInfo)
    ensures
        r@ == openai_info(id@, name@, t),
{
    ModelInfo {
        id: owned(id),
        name: owned(name),
        model_type: t,
        backend: BackendType::OpenAi,
        status: ModelStatus::Available,
        memory_bytes: 0,
        priority: ModelPriority::Normal,
    }
}

/// The name `{:?}` gives a model type.
pub open spec fn type_debug_name(t: ModelType) -> Seq<char> {
    match t {
        ModelType::Llm => "Llm"@,
        ModelType::Tts => "Tts"@,
        ModelType::Asr => "Asr"@,
        ModelType::ImageGen => "ImageGen"@,
        ModelType::VideoGen => "VideoGen"@,
        ModelType::Vlm => "Vlm"@,
        ModelType::VoiceClone => "VoiceClone"@,
    }
}

fn type_debug_text(t: ModelType) -> (r: &'static str)
    ensures
        r@ == type_debug_name(t),
{
    match t {
        ModelType::Llm => "Llm",
        ModelType::Tts => "Tts",
        ModelType::Asr => "Asr",
        ModelType::ImageGen => "ImageGen",
        ModelType::VideoGen => "VideoGen",
        ModelType::Vlm => "Vlm",
        ModelType::VoiceClone => "VoiceClone",
    }
}

/// An OpenAI account and its built-in models.
pub struct OpenAiBackend {
    base_url: String,
    api_key: String,
    models: ModelTable,
}

impl OpenAiBackend {
    pub closed spec fn spec_base_url(&self) -> Seq<char> {
        self.base_url@
    }

    pub closed spec fn spec_api_key(&self) -> Seq<char> {
        self.api_key@
    }

    /// The registry by model id.
    pub closed spec fn spec_models(&self) -> Map<Seq<char>, ModelInfoView> {
        model_table(self.models)
    }

    /// A backend for the API at `base_url` (trailing slashes dropped), with
    /// no models registered yet.
    pub fn new(base_url: &str, api_key: &str) -> (r: Self)
        ensures
            r.spec_base_url() == without_trailing_slashes(base_url@),
            r.spec_api_key() == api_key@,
            r.spec_models() == no_models(),
    {
        OpenAiBackend {
            base_url: strip_trailing_slashes(base_url),
            api_key: owned(api_key),
            models: model_table_new(),
        }
    }

    pub fn base_url(&self) -> (r: &str)
        ensures
            r@ == self.spec_base_url(),
    {
        self.base_url.as_str()
    }

    pub fn api_key(&self) -> (r: &str)
        ensures
            r@ == self.spec_api_key(),
    {
        self.api_key.as_str()
    }

    pub fn backend_type(&self) -> (r: BackendType)
        ensures
            r == BackendType::OpenAi,
    {
        BackendType::OpenAi
    }

    /// Language, speech and transcription models.
    pub fn supports_type(&self, model_type: ModelType) -> (r: bool)
        ensures
            r == (model_type == ModelType::Llm || model_type == ModelType::Tts || model_type
                == ModelType::Asr),
    {
        match model_type {
            ModelType::Llm | ModelType::Tts | ModelType::Asr => true,
            _ => false,
        }
    }

    /// Enter the built-in models (see [`openai_defaults`]) and return them.
    pub fn register_defaults(&mut self) -> (r: Vec<ModelInfo>)
        ensures
            model_views(r@) == openai_defaults(),
            final(self).spec_models() == entered(old(self).spec_models(), openai_defaults()),
            final(self).spec_base_url() == old(self).spec_base_url(),
            final(self).spec_api_key() == old(self).spec_api_key(),
    {
        let defaults = vec![
            openai_model("openai:gpt-4o", "gpt-4o", ModelType::Llm),
            openai_model("openai:gpt-4o-mini", "gpt-4o-mini", ModelType::Llm),
            openai_model("openai:tts-1", "tts-1", ModelType::Tts),
            openai_model("openai:tts-1-hd", "tts-1-hd", ModelType::Tts),
            openai_model("openai:whisper-1", "whisper-1", ModelType::Asr),
        ];
        assert(model_views(defaults@) =~= openai_defaults());
        let mut out: Vec<ModelInfo> = Vec::new();
        let mut i: usize = 0;
        while i < defaults.len()
            invariant
                i <= defaults@.len(),
                model_views(defaults@) == openai_defaults(),
                model_views(out@) == openai_defaults().take(i as int),
                model_table(self.models) == entered(model_table(old(self).models), openai_defaults().take(i as int)),
                self.base_url@ == old(self).base_url@,
                self.api_key@ == old(self).api_key@,
            decreases defaults.len() - i,
        {
            assert(openai_defaults().take(i as int + 1).drop_last() =~= openai_defaults().take(i as int));
            let info = defaults[i].duplicate();
            assert(info@ == openai_defaults()[i as int]);
            model_table_insert(&mut self.models, owned(info.id.as_str()), info.duplicate());
            out.push(info);
            assert(model_views(out@) =~= openai_defaults().take(i as int + 1));
            i = i + 1;
        }
        assert(openai_defaults().take(5) =~= openai_defaults());
        out
    }

    /// Mark a registered model loaded.
    pub fn load_model(&mut self, model_id: &str)
        ensures
            final(self).spec_models() == with_status(old(self).spec_models(), model_id@, ModelStatus::Loaded),
            final(self).spec_base_url() == old(self).spec_base_url(),
            final(self).spec_api_key() == old(self).spec_api_key(),
    {
        set_status(&mut self.models, model_id, ModelStatus::Loaded);
    }

    /// Mark a registered model available again.
    pub fn unload_model(&mut self, model_id: &str)
        ensures
            final(self).spec_models() == with_status(old(self).spec_models(), model_id@, ModelStatus::Available),
            final(self).spec_base_url() == old(self).spec_base_url(),
            final(self).spec_api_key() == old(self).spec_api_key(),
    {
        set_status(&mut self.models, model_id, ModelStatus::Available);
    }

    /// The call a run makes: the registered model's name and type, for a
    /// language, speech or transcription model. An unregistered model is not
    /// found; any other type is a backend error.
    pub fn run_plan(&self, model_id: &str) -> (r: Result<(String, ModelType), EngineError>)
        ensures
            !self.spec_models().contains_key(model_id@) ==> (r matches Err(EngineError::ModelNotFound(m))
                && m@ == model_id@),
            self.spec_models().contains_key(model_id@) ==> ({
                let info = self.spec_models()[model_id@];
                if info.model_type == ModelType::Llm || info.model_type == ModelType::Tts
                    || info.model_type == ModelType::Asr {
                    r matches Ok(p) && p.0@ == info.name && p.1 == info.model_type
                } else {
                    r matches Err(EngineError::BackendError(m)) && m@ == "openai does not support "@
                        + type_debug_name(info.model_type)
                }
            }),
    {
        let info = match model_table_get(&self.models, model_id) {
            Some(i) => i,
            None => return Err(EngineError::ModelNotFound(owned(model_id))),
        };
        match info.model_type {
            ModelType::Llm | ModelType::Tts | ModelType::Asr => Ok((info.name, info.model_type)),
            other => Err(
                EngineError::BackendError(concat("openai does not support ", type_debug_text(other))),
            ),
        }
    }
}

/// The text of a run (`missing` is the error without one).
pub fn required_text(text: &Option<String>, missing: &str) -> (r: Result<String, EngineError>)
    ensures
        text matches Some(t) ==> (r matches Ok(x) && x@ == t@),
        text is None ==> (r matches Err(EngineError::InvalidInput(m)) && m@ == missing@),
{
    match text {
        Some(t) => Ok(owned(t.as_str())),
        None => Err(EngineError::InvalidInput(owned(missing))),
    }
}

/// The file name a transcription upload carries: the path's final
/// component, else `audio.wav`.
pub fn audio_upload_name(path: &str) -> (r: String)
    ensures
        r@ == (match file_name_of(path@) {
            Some(n) => n,
            None => "audio.wav"@,
        }),
{
    match path_file_name(path) {
        Some(n) => n,
        None => owned("audio.wav"),
    }
}

/// The voice of a speech run: the `voice` parameter, else `alloy`.
pub fn tts_voice(param: Option<String>) -> (r: String)
    ensures
        r@ == (match param {
            Some(v) => v@,
            None => "alloy"@,
        }),
{
    match param {
        Some(v) => v,
        None => owned("alloy"),
    }
}

} // verus!
