//! Cloud music generation through a suno-api compatible gateway. A render is
//! a task: the body that submits it (standard mode, or custom mode once
//! lyrics, a style or a title is given), how a polled clip's state is read,
//! when polling stops, and the label the finished track carries.

use vstd::prelude::*;

use crate::artifacts::{artifact_dir_for, resolve_artifact_dir};
use crate::backends::cloud_video_gen::{
    api_key_for, resolve_api_key, strip_trailing_slashes, without_trailing_slashes,
};
use crate::backends::common::{call_verdict, check_call, request_text, take_request_text};
use crate::catalog::{
    capability_named, model_name_of, BackendFeature, BackendHealth, Capability, CostTier,
    LifecycleResult, ModelAvailability, ModelCard, ModelId, ModelResidency, ProviderKind,
};
use crate::config::ModelDef;
use crate::kernel::EngineError;
use crate::text::{concat, is_blank, owned, to_ascii_lowercase, ascii_lower, str_eq, trim_is_empty};

verus! {

/// The gateway used when none is configured.
pub const DEFAULT_BASE_URL: &'static str = "http://127.0.0.1:3000";

/// Seconds between polls unless the request asks otherwise.
pub const DEFAULT_POLL_INTERVAL_SECS: u64 = 5;

/// Polls made before a clip that never finishes is given up.
pub const MAX_POLL_ATTEMPTS: u32 = 120;

/// The environment variable a deployment without a configured cookie falls
/// back to.
pub const API_KEY_ENV: &'static str = "SUNO_COOKIE";

/// The state of a clip as a poll reports it.
#[derive(Debug, Clone, PartialEq, Eq)]
pub enum ClipState {
    /// Queued or rendering: keep polling.
    Pending,
    /// Finished, with the audio to download.
    Ready(String),
    /// Failed, with the gateway's reason.
    Failed(String),
}

/// The state a clip's lower-cased status, audio URL and error message give:
/// `streaming`, `complete` or `completed` is finished (a failure when no
/// non-empty audio URL came with it); `error`, `failed`, `blocked` or
/// `flagged` is a failure with the clip's reason; anything else, an absent
/// status included, is still pending.
pub open spec fn clip_state_of(
    status: Seq<char>,
    audio_url: Option<Seq<char>>,
    error_message: Option<Seq<char>>,
) -> Result<Option<Seq<char>>, Seq<char>> {
    if status == "streaming"@ || status == "complete"@ || status == "completed"@ {
        match audio_url {
            Some(u) => if u.len() > 0 {
                Ok(Some(u))
            } else {
                Err("clip finished but returned no audio URL"@)
            },
            None => Err("clip finished but returned no audio URL"@),
        }
    } else if status == "error"@ || status == "failed"@ || status == "blocked"@ || status == "flagged"@ {
        match error_message {
            Some(m) => Err(m),
            None => Err("clip failed without a reason"@),
        }
    } else {
        Ok(None)
    }
}

/// The status text lower-cased in ASCII, empty when absent.
pub open spec fn status_text(status: Option<String>) -> Seq<char> {
    match status {
        Some(s) => s@.map_values(|c: char| ascii_lower(c)),
        None => Seq::empty(),
    }
}

/// Whether a state is the one [`clip_state_of`] describes.
pub open spec fn is_clip_state(r: ClipState, spec: Result<Option<Seq<char>>, Seq<char>>) -> bool {
    match spec {
        Ok(None) => r == ClipState::Pending,
        Ok(Some(u)) => (r matches ClipState::Ready(x) && x@ == u),
        Err(m) => (r matches ClipState::Failed(x) && x@ == m),
    }
}

/// Read a polled clip: its `status`, its audio URL and its error message.
pub fn parse_clip_state(
    status: Option<String>,
    audio_url: Option<String>,
    error_message: Option<String>,
) -> (r: ClipState)
    ensures
        is_clip_state(
            r,
            clip_state_of(
                status_text(status),
                match audio_url {
                    Some(u) => Some(u@),
                    None => None,
                },
                match error_message {
                    Some(m) => Some(m@),
                    None => None,
                },
            ),
        ),
{
    let lower = match &status {
        Some(s) => to_ascii_lowercase(s.as_str()),
        None => String::new(),
    };
    assert(lower@ =~= status_text(status));
    let l = lower.as_str();
    if str_eq(l, "streaming") || str_eq(l, "complete") || str_eq(l, "completed") {
        match audio_url {
            Some(u) => {
                if u.unicode_len() > 0 {
                    ClipState::Ready(u)
                } else {
                    ClipState::Failed(owned("clip finished but returned no audio URL"))
                }
            },
            None => ClipState::Failed(owned("clip finished but returned no audio URL")),
        }
    } else if str_eq(l, "error") || str_eq(l, "failed") || str_eq(l, "blocked") || str_eq(l, "flagged") {
        match error_message {
            Some(m) => ClipState::Failed(m),
            None => ClipState::Failed(owned("clip failed without a reason")),
        }
    } else {
        ClipState::Pending
    }
}

/// The body that submits a render.
#[derive(Debug, Clone, PartialEq, Eq)]
pub struct SubmitBody {
    /// The prompt (in custom mode, the lyrics when given).
    pub prompt: String,
    /// An instrumental-only track.
    pub make_instrumental: bool,
    /// Always false: the clip is polled, never awaited.
    pub wait_audio: bool,
    /// Custom mode's lyrics.
    pub lyrics: Option<String>,
    /// Custom mode's style, sent both as `tags` and `style`.
    pub tags: Option<String>,
    pub style: Option<String>,
    /// Custom mode's title.
    pub title: Option<String>,
}

/// A parameter text when it is given and not blank.
pub open spec fn given_text(v: Option<String>) -> Option<Seq<char>> {
    match v {
        Some(s) => if is_blank(s@) {
            None
        } else {
            Some(s@)
        },
        None => None,
    }
}

/// Whether a submit body is in custom mode.
pub open spec fn is_custom(b: SubmitBody) -> bool {
    b.lyrics is Some || b.style is Some || b.title is Some
}

/// Keep a parameter text only when it is not blank.
fn non_blank(v: Option<String>) -> (r: Option<String>)
    ensures
        match given_text(v) {
            Some(t) => (r matches Some(x) && x@ == t),
            None => r is None,
        },
{
    match v {
        Some(s) => {
            if trim_is_empty(s.as_str()) {
                None
            } else {
                Some(s)
            }
        },
        None => None,
    }
}

/// The body that submits a render of `prompt`. Lyrics, a style or a title
/// that is given and not blank switches to custom mode, where the lyrics,
/// when given, stand in for the prompt and the style goes out as both
/// `tags` and `style`. `instrumental` (default false) asks for an
/// instrumental-only track.
pub fn build_submit_body(
    prompt: &str,
    instrumental: Option<bool>,
    lyrics: Option<String>,
    style: Option<String>,
    title: Option<String>,
) -> (r: SubmitBody)
    ensures
        r.make_instrumental == (match instrumental {
            Some(b) => b,
            None => false,
        }),
        !r.wait_audio,
        r.lyrics is Some <==> given_text(lyrics) is Some,
        r.lyrics matches Some(x) ==> given_text(lyrics) == Some(x@),
        r.style is Some <==> given_text(style) is Some,
        r.style matches Some(x) ==> given_text(style) == Some(x@),
        r.tags is Some <==> given_text(style) is Some,
        r.tags matches Some(x) ==> given_text(style) == Some(x@),
        r.title is Some <==> given_text(title) is Some,
        r.title matches Some(x) ==> given_text(title) == Some(x@),
        r.prompt@ == (match given_text(lyrics) {
            Some(l) => l,
            None => prompt@,
        }),
{
    let make_instrumental = match instrumental {
        Some(b) => b,
        None => false,
    };
    let lyrics = non_blank(lyrics);
    let style = non_blank(style);
    let title = non_blank(title);
    let prompt = match &lyrics {
        Some(l) => owned(l.as_str()),
        None => owned(prompt),
    };
    let tags = match &style {
        Some(s) => Some(owned(s.as_str())),
        None => None,
    };
    SubmitBody { prompt, make_instrumental, wait_audio: false, lyrics, tags, style, title }
}

/// The gateway endpoint a body goes to: custom mode has its own.
pub fn submit_path(body: &SubmitBody) -> (r: &'static str)
    ensures
        is_custom(*body) ==> r@ == "api/custom_generate"@,
        !is_custom(*body) ==> r@ == "api/generate"@,
{
    if body.lyrics.is_some() || body.style.is_some() || body.title.is_some() {
        "api/custom_generate"
    } else {
        "api/generate"
    }
}

/// The poll interval a request asks for: a positive `poll_interval_secs`,
/// else the default.
pub fn poll_interval_secs(requested: Option<u64>) -> (r: u64)
    ensures
        r == (match requested {
            Some(s) => if s > 0 {
                s
            } else {
                DEFAULT_POLL_INTERVAL_SECS
            },
            None => DEFAULT_POLL_INTERVAL_SECS,
        }),
{
    match requested {
        Some(s) => if s > 0 {
            s
        } else {
            DEFAULT_POLL_INTERVAL_SECS
        },
        None => DEFAULT_POLL_INTERVAL_SECS,
    }
}

/// The label of a finished track: `<title> · <tags>`, or whichever of the
/// two is not empty; none when both are.
pub open spec fn label_of(title: Seq<char>, tags: Seq<char>) -> Option<Seq<char>> {
    if title.len() > 0 && tags.len() > 0 {
        Some(title + " · "@ + tags)
    } else if title.len() > 0 {
        Some(title)
    } else if tags.len() > 0 {
        Some(tags)
    } else {
        None
    }
}

/// The text of an optional string, empty when absent.
pub open spec fn text_or_empty(v: Option<String>) -> Seq<char> {
    match v {
        Some(s) => s@,
        None => Seq::empty(),
    }
}

/// The label of a finished track from the clip's title and tags.
pub fn track_label(title: Option<String>, tags: Option<String>) -> (r: Option<String>)
    ensures
        match label_of(text_or_empty(title), text_or_empty(tags)) {
            Some(l) => (r matches Some(x) && x@ == l),
            None => r is None,
        },
{
    let t = match title {
        Some(s) => s,
        None => String::new(),
    };
    let g = match tags {
        Some(s) => s,
        None => String::new(),
    };
    let has_t = t.unicode_len() > 0;
    let has_g = g.unicode_len() > 0;
    if has_t && has_g {
        let a = concat(t.as_str(), " · ");
        Some(concat(a.as_str(), g.as_str()))
    } else if has_t {
        Some(t)
    } else if has_g {
        Some(g)
    } else {
        None
    }
}

/// What to do after a poll.
#[derive(Debug)]
pub enum MusicPoll {
    /// Wait the interval and poll again.
    Again,
    /// Download the finished audio.
    Download(String),
    /// Stop with this error.
    Stop(EngineError),
}

/// A music provider behind a suno-api compatible gateway.
pub struct CloudMusicGenProvider {
    name: String,
    base_url: String,
    api_key: String,
    models: Vec<ModelDef>,
    cost_tier: CostTier,
    output_dir: String,
}

/// The gateway used for a configured base URL: the default when none is
/// configured, else the configured one without trailing slashes.
pub open spec fn music_base_url(configured: Seq<char>) -> Seq<char> {
    if configured.len() == 0 {
        DEFAULT_BASE_URL@
    } else {
        without_trailing_slashes(configured)
    }
}

impl CloudMusicGenProvider {
    pub closed spec fn spec_name(&self) -> Seq<char> {
        self.name@
    }

    pub closed spec fn spec_base_url(&self) -> Seq<char> {
        self.base_url@
    }

    pub closed spec fn spec_api_key(&self) -> Seq<char> {
        self.api_key@
    }

    pub closed spec fn spec_models(&self) -> Seq<ModelDef> {
        self.models@
    }

    pub closed spec fn spec_cost_tier(&self) -> CostTier {
        self.cost_tier
    }

    pub closed spec fn spec_output_dir(&self) -> Seq<char> {
        self.output_dir@
    }

    /// A provider for the gateway at `base_url` (see [`music_base_url`]).
    /// The session cookie is the configured one when not empty, else the
    /// value of [`API_KEY_ENV`] (`env_cookie`), else none: gateways often
    /// hold their own. Artifacts go to `output_dir` when one is configured,
    /// else to `default_dir`.
    pub fn new(
        name: &str,
        base_url: &str,
        api_key: Option<String>,
        env_cookie: Option<String>,
        models: Vec<ModelDef>,
        cost_tier: CostTier,
        output_dir: Option<String>,
        default_dir: String,
    ) -> (r: Self)
        ensures
            r.spec_name() == name@,
            r.spec_base_url() == music_base_url(base_url@),
            r.spec_api_key() == api_key_for(api_key, env_cookie),
            r.spec_models() == models@,
            r.spec_cost_tier() == cost_tier,
            r.spec_output_dir() == artifact_dir_for(output_dir, default_dir@),
    {
        let base = if base_url.unicode_len() == 0 {
            owned(DEFAULT_BASE_URL)
        } else {
            strip_trailing_slashes(base_url)
        };
        CloudMusicGenProvider {
            name: owned(name),
            base_url: base,
            api_key: resolve_api_key(api_key, env_cookie),
            models,
            cost_tier,
            output_dir: resolve_artifact_dir(output_dir, default_dir),
        }
    }

    pub fn name(&self) -> (r: &str)
        ensures
            r@ == self.spec_name(),
    {
        self.name.as_str()
    }

    pub fn base_url(&self) -> (r: &str)
        ensures
            r@ == self.spec_base_url(),
    {
        self.base_url.as_str()
    }

    pub fn output_dir(&self) -> (r: &str)
        ensures
            r@ == self.spec_output_dir(),
    {
        self.output_dir.as_str()
    }

    pub fn kind(&self) -> (r: ProviderKind)
        ensures
            r == ProviderKind::CloudMusicGen,
    {
        ProviderKind::CloudMusicGen
    }

    /// Discovery, load and unload.
    pub fn features(&self) -> (r: Vec<BackendFeature>)
        ensures
            r@ == seq![BackendFeature::Discovery, BackendFeature::Load, BackendFeature::Unload],
    {
        vec![BackendFeature::Discovery, BackendFeature::Load, BackendFeature::Unload]
    }

    /// Always healthy: a missing cookie is no sign of unavailability, since
    /// the gateway may hold its own; a render reports auth errors itself.
    pub fn health(&self) -> (r: BackendHealth)
        ensures
            r == BackendHealth::Healthy,
    {
        BackendHealth::Healthy
    }

    /// The `Cookie` header to send: the session cookie, when there is one.
    pub fn cookie(&self) -> (r: Option<&str>)
        ensures
            self.spec_api_key().len() == 0 ==> r is None,
            self.spec_api_key().len() > 0 ==> (r matches Some(c) && c@ == self.spec_api_key()),
    {
        if self.api_key.unicode_len() == 0 {
            None
        } else {
            Some(self.api_key.as_str())
        }
    }

    /// The URL of a gateway endpoint: `<base_url>/<path>`.
    pub fn endpoint(&self, path: &str) -> (r: String)
        ensures
            r@ == self.spec_base_url() + "/"@ + path@,
    {
        let head = concat(self.base_url.as_str(), "/");
        concat(head.as_str(), path)
    }

    /// Loading or unloading a remote model changes nothing: it stays remote,
    /// holding no memory, under its canonical id.
    pub fn lifecycle(&self, model_id: &str) -> (r: LifecycleResult)
        ensures
            r.model_id@ == self.spec_name() + "/"@ + model_name_of(model_id@),
            r.residency == ModelResidency::Remote,
            r.memory_bytes == Some(0u64),
            !r.changed,
    {
        let name = ModelId::name(model_id);
        LifecycleResult {
            model_id: ModelId::canonical(self.name.as_str(), name.as_str()),
            residency: ModelResidency::Remote,
            memory_bytes: Some(0),
            changed: false,
        }
    }

    /// The checks before a render (see [`call_verdict`]): only music
    /// generation, only on a configured music model.
    pub fn check_call(&self, model_id: &str, requested: Option<Capability>) -> (r: Result<
        String,
        EngineError,
    >)
        ensures
            call_verdict(self.spec_name(), self.spec_models(), model_id@, requested, Capability::MusicGen)
                matches Ok(n) ==> (r matches Ok(x) && x@ == n),
            call_verdict(self.spec_name(), self.spec_models(), model_id@, requested, Capability::MusicGen)
                matches Err(m) ==> (r matches Err(EngineError::UnsupportedOperation(e)) && e@ == m),
    {
        check_call(self.name.as_str(), self.models.as_slice(), model_id, requested, Capability::MusicGen)
    }

    /// The prompt of a render: the first message, else the `prompt`
    /// parameter, when not blank (see [`request_text`]).
    pub fn prompt(&self, first_message: Option<String>, param: Option<String>) -> (r: Result<
        String,
        EngineError,
    >)
        ensures
            request_text(first_message, param) matches Some(t) ==> (r matches Ok(x) && x@ == t),
            request_text(first_message, param) is None ==> (r matches Err(
                EngineError::InvalidRequest(m),
            ) && m@ == "music_gen requires a prompt"@),
    {
        take_request_text(first_message, param, "music_gen requires a prompt")
    }

    /// An error of this provider.
    pub fn provider_error(&self, detail: String) -> (r: EngineError)
        ensures
            r matches EngineError::ProviderError { provider, detail: d } && provider@
                == self.spec_name() && d@ == detail@,
    {
        EngineError::ProviderError { provider: owned(self.name.as_str()), detail }
    }

    /// What follows the `attempt`-th poll (counting from 1) of clip
    /// `clip_id`: poll again while pending and attempts remain; download a
    /// finished clip; stop on a failed clip, or once the last attempt finds
    /// it still pending.
    pub fn after_poll(&self, clip_id: &str, attempt: u32, state: ClipState) -> (r: MusicPoll)
        requires
            1 <= attempt <= MAX_POLL_ATTEMPTS,
        ensures
            state == ClipState::Pending && attempt < MAX_POLL_ATTEMPTS ==> r is Again,
            state == ClipState::Pending && attempt == MAX_POLL_ATTEMPTS ==> (r matches MusicPoll::Stop(
                EngineError::ProviderError { provider, detail },
            ) && provider@ == self.spec_name() && detail@ == "music clip "@ + clip_id@
                + " did not finish within 120 polls"@),
            state matches ClipState::Ready(u) ==> (r matches MusicPoll::Download(x) && x@ == u@),
            state matches ClipState::Failed(why) ==> (r matches MusicPoll::Stop(
                EngineError::ProviderError { provider, detail },
            ) && provider@ == self.spec_name() && detail@ == "music clip "@ + clip_id@ + " failed: "@
                + why@),
    {
        match state {
            ClipState::Pending => {
                if attempt < MAX_POLL_ATTEMPTS {
                    MusicPoll::Again
                } else {
                    let a = concat("music clip ", clip_id);
                    let d = concat(a.as_str(), " did not finish within 120 polls");
                    MusicPoll::Stop(self.provider_error(d))
                }
            },
            ClipState::Ready(u) => MusicPoll::Download(u),
            ClipState::Failed(why) => {
                let a = concat("music clip ", clip_id);
                let b = concat(a.as_str(), " failed: ");
                let d = concat(b.as_str(), why.as_str());
                MusicPoll::Stop(self.provider_error(d))
            },
        }
    }

    /// Downloaded audio must not be empty.
    pub fn check_audio(&self, len: usize) -> (r: Result<(), EngineError>)
        ensures
            len > 0 ==> r is Ok,
            len == 0 ==> (r matches Err(EngineError::ProviderError { provider, detail })
                && provider@ == self.spec_name() && detail@ == "audio download was empty"@),
    {
        if len == 0 {
            Err(self.provider_error(owned("audio download was empty")))
        } else {
            Ok(())
        }
    }
}

} // verus!
