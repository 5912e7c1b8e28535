//! The task-based cloud video provider: which vendor dialect a configuration
//! names, where its API lives, where its key comes from, how generation knobs
//! become a task body, and how a polled task reads.

use vstd::prelude::*;

use crate::text::{
    concat, decimal, eq_ignore_ascii_case, owned, parse_decimal, parse_unsigned, same_ignoring_ascii_case,
    substring, to_chars, trim, trimmed, u64_to_decimal,
};
use crate::backends::common::{first_separator, is_first_separator, is_size_separator, positive_param, positive_u32};
use crate::text::{ascii_lower, str_eq, to_ascii_lowercase};
use crate::artifacts::{artifact_dir_for, resolve_artifact_dir};
use crate::backends::common::{call_verdict, check_call, request_text, take_request_text};
use crate::catalog::{
    capability_named, model_name_of, BackendFeature, BackendHealth, Capability, CostTier,
    LifecycleResult, ModelAvailability, ModelCard, ModelId, ModelResidency, ProviderKind,
};
use crate::config::ModelDef;
use crate::kernel::EngineError;

verus! {

/// Base URL of the Ark (Seedance) API.
pub const DEFAULT_ARK_BASE_URL: &'static str = "https://ark.cn-beijing.volces.com/api/v3";

/// Base URL of the Agnes gateway.
pub const DEFAULT_AGNES_BASE_URL: &'static str = "https://apihub.agnes-ai.com/v1";

/// Which vendor's task-based video API a provider speaks.
#[derive(Debug, Clone, Copy, PartialEq, Eq, Structural)]
pub enum VideoDialect {
    /// Volcengine Ark / BytePlus (Seedance).
    Ark,
    /// The Agnes AI gateway.
    Agnes,
}

/// The dialect a configuration string names: `agnes` (ignoring case and
/// surrounding white space), anything else Ark.
pub open spec fn dialect_named(s: Seq<char>) -> VideoDialect {
    if same_ignoring_ascii_case(trimmed(s), "agnes"@) {
        VideoDialect::Agnes
    } else {
        VideoDialect::Ark
    }
}

impl VideoDialect {
    /// Parse the configured dialect; unknown or empty means Ark.
    pub fn from_str_loose(s: &str) -> (r: VideoDialect)
        ensures
            r == dialect_named(s@),
    {
        let t = trim(s);
        if eq_ignore_ascii_case(t.as_str(), "agnes") {
            VideoDialect::Agnes
        } else {
            VideoDialect::Ark
        }
    }

    /// The environment variable a missing key is read from.
    pub fn api_key_env(self) -> (r: &'static str)
        ensures
            r@ == (match self {
                VideoDialect::Ark => "ARK_API_KEY"@,
                VideoDialect::Agnes => "AGNES_API_KEY"@,
            }),
    {
        match self {
            VideoDialect::Ark => "ARK_API_KEY",
            VideoDialect::Agnes => "AGNES_API_KEY",
        }
    }

    /// The vendor's own base URL.
    pub fn default_base_url(self) -> (r: &'static str)
        ensures
            r@ == (match self {
                VideoDialect::Ark => DEFAULT_ARK_BASE_URL@,
                VideoDialect::Agnes => DEFAULT_AGNES_BASE_URL@,
            }),
    {
        match self {
            VideoDialect::Ark => DEFAULT_ARK_BASE_URL,
            VideoDialect::Agnes => DEFAULT_AGNES_BASE_URL,
        }
    }
}

/// `s` without its trailing `/` characters.
pub open spec fn without_trailing_slashes(s: Seq<char>) -> Seq<char>
    decreases s.len(),
{
    if s.len() > 0 && s.last() == '/' {
        without_trailing_slashes(s.drop_last())
    } else {
        s
    }
}

/// The base URL a provider uses: the vendor's default when none is
/// configured, else the configured one without trailing slashes.
pub open spec fn base_url_for(dialect: VideoDialect, configured: Seq<char>) -> Seq<char> {
    if configured.len() == 0 {
        match dialect {
            VideoDialect::Ark => DEFAULT_ARK_BASE_URL@,
            VideoDialect::Agnes => DEFAULT_AGNES_BASE_URL@,
        }
    } else {
        without_trailing_slashes(configured)
    }
}

/// Compute [`base_url_for`].
pub fn resolve_base_url(dialect: VideoDialect, configured: &str) -> (r: String)
    ensures
        r@ == base_url_for(dialect, configured@),
{
    if configured.unicode_len() == 0 {
        return owned(dialect.default_base_url());
    }
    strip_trailing_slashes(configured)
}

/// `s` without its trailing `/` characters (`str::trim_end_matches('/')`).
pub fn strip_trailing_slashes(s: &str) -> (r: String)
    ensures
        r@ == without_trailing_slashes(s@),
{
    let mut chars = to_chars(s);
    while chars.len() > 0 && chars[chars.len() - 1] == '/'
        invariant
            without_trailing_slashes(s@) == without_trailing_slashes(chars@),
        decreases chars.len(),
    {
        let ghost before = chars@;
        chars.pop();
        assert(chars@ =~= before.drop_last());
    }
    crate::text::string_from_chars(&chars)
}

/// The key a provider uses: the configured one when non-empty, else the
/// dialect's environment variable (`env_value`, when set), else empty (the
/// provider is then unavailable).
pub open spec fn api_key_for(configured: Option<String>, env_value: Option<String>) -> Seq<char> {
    match configured {
        Some(k) if k@.len() > 0 => k@,
        _ => match env_value {
            Some(v) => v@,
            None => Seq::empty(),
        },
    }
}

/// Compute [`api_key_for`].
pub fn resolve_api_key(configured: Option<String>, env_value: Option<String>) -> (r: String)
    ensures
        r@ == api_key_for(configured, env_value),
{
    if let Some(k) = configured {
        if k.as_str().unicode_len() > 0 {
            return k;
        }
    }
    match env_value {
        Some(v) => v,
        None => String::new(),
    }
}

/// The decimal text of a signed number.
pub open spec fn signed_decimal(x: int) -> Seq<char> {
    if x < 0 {
        "-"@ + decimal((-x) as nat)
    } else {
        decimal(x as nat)
    }
}

fn i64_to_decimal(x: i64) -> (r: String)
    ensures
        r@ == signed_decimal(x as int),
{
    if x < 0 {
        let m = (0i128 - (x as i128)) as u64;
        concat("-", u64_to_decimal(m).as_str())
    } else {
        u64_to_decimal(x as u64)
    }
}

/// One ` --flag value` command for a text parameter present and not blank.
pub open spec fn text_flag(flag: Seq<char>, v: Option<Seq<char>>) -> Seq<char> {
    match v {
        Some(t) => if trimmed(t).len() == 0 {
            Seq::empty()
        } else {
            " --"@ + flag + " "@ + trimmed(t)
        },
        None => Seq::empty(),
    }
}

/// The generation knobs written as Seedance text commands appended to the
/// prompt (` --ratio 16:9 --duration 5 ...`); only knobs present are written.
pub open spec fn command_suffix_of(
    ratio: Option<Seq<char>>,
    resolution: Option<Seq<char>>,
    duration: Option<u64>,
    fps: Option<u64>,
    seed: Option<i64>,
) -> Seq<char> {
    text_flag("ratio"@, ratio) + text_flag("resolution"@, resolution) + match duration {
        Some(d) => " --duration "@ + decimal(d as nat),
        None => Seq::empty(),
    } + match fps {
        Some(f) => " --fps "@ + decimal(f as nat),
        None => Seq::empty(),
    } + match seed {
        Some(s) => " --seed "@ + signed_decimal(s as int),
        None => Seq::empty(),
    }
}

fn push_text_flag(out: String, flag: &str, v: Option<&str>) -> (r: String)
    ensures
        r@ == out@ + text_flag(flag@, match v {
            Some(t) => Some(t@),
            None => None,
        }),
{
    match v {
        Some(t) => {
            let tt = trim(t);
            if tt.as_str().unicode_len() == 0 {
                assert(out@ + Seq::<char>::empty() =~= out@);
                out
            } else {
                let a = concat(out.as_str(), " --");
                let b = concat(a.as_str(), flag);
                let c = concat(b.as_str(), " ");
                let d = concat(c.as_str(), tt.as_str());
                assert(d@ =~= out@ + (" --"@ + flag@ + " "@ + trimmed(t@)));
                d
            }
        },
        None => {
            assert(out@ + Seq::<char>::empty() =~= out@);
            out
        },
    }
}

/// Compute [`command_suffix_of`]; `duration` is the request's `duration`, else
/// its `seconds`.
pub fn command_suffix(
    ratio: Option<&str>,
    resolution: Option<&str>,
    duration: Option<u64>,
    fps: Option<u64>,
    seed: Option<i64>,
) -> (r: String)
    ensures
        r@ == command_suffix_of(
            match ratio {
                Some(t) => Some(t@),
                None => None,
            },
            match resolution {
                Some(t) => Some(t@),
                None => None,
            },
            duration,
            fps,
            seed,
        ),
{
    let mut out = String::new();
    out = push_text_flag(out, "ratio", ratio);
    out = push_text_flag(out, "resolution", resolution);
    let d_part = match duration {
        Some(d) => concat(" --duration ", u64_to_decimal(d).as_str()),
        None => String::new(),
    };
    let f_part = match fps {
        Some(f) => concat(" --fps ", u64_to_decimal(f).as_str()),
        None => String::new(),
    };
    let s_part = match seed {
        Some(s) => concat(" --seed ", i64_to_decimal(s).as_str()),
        None => String::new(),
    };
    let a = concat(out.as_str(), d_part.as_str());
    let b = concat(a.as_str(), f_part.as_str());
    let c = concat(b.as_str(), s_part.as_str());
    c
}

/// The dimensions of an Agnes request: explicit `width` and `height` (both
/// positive), else a `"WxH"` size whose edges parse, else 1152 by 768.
pub open spec fn agnes_dimensions_of(width: Option<u32>, height: Option<u32>, size: Option<Seq<char>>) -> (
    u32,
    u32,
) {
    match (width, height) {
        (Some(w), Some(h)) => (w, h),
        _ => match size {
            Some(s) => match first_separator(s) {
                Some(i) => match (
                    parse_unsigned(trimmed(s.take(i)), u32::MAX as nat),
                    parse_unsigned(trimmed(s.skip(i + 1)), u32::MAX as nat),
                ) {
                    (Some(w), Some(h)) => (w as u32, h as u32),
                    _ => (1152, 768),
                },
                None => (1152, 768),
            },
            None => (1152, 768),
        },
    }
}

/// Compute [`agnes_dimensions_of`]; `width` and `height` are the request's
/// positive parameters.
pub fn agnes_dimensions(width: Option<u32>, height: Option<u32>, size: Option<&str>) -> (r: (u32, u32))
    ensures
        r == agnes_dimensions_of(width, height, match size {
            Some(s) => Some(s@),
            None => None,
        }),
{
    if let (Some(w), Some(h)) = (width, height) {
        return (w, h);
    }
    let s = match size {
        Some(s) => s,
        None => {
            return (1152, 768);
        },
    };
    let chars = to_chars(s);
    let mut i: usize = 0;
    while i < chars.len() && !(chars[i] == 'x' || chars[i] == 'X')
        invariant
            chars@ == s@,
            i <= chars@.len(),
            forall|j: int| 0 <= j < i ==> !is_size_separator(#[trigger] s@[j]),
        decreases chars.len() - i,
    {
        i = i + 1;
    }
    if i == chars.len() {
        proof {
            if exists|k: int| is_first_separator(s@, k) {
                let k = choose|k: int| is_first_separator(s@, k);
                assert(!is_size_separator(s@[k]));
            }
        }
        return (1152, 768);
    }
    proof {
        assert(is_first_separator(s@, i as int));
        let k = choose|k: int| is_first_separator(s@, k);
        if k < i {
            assert(!is_size_separator(s@[k]));
        }
        if k > i {
            assert(!is_size_separator(s@[i as int]));
        }
        assert(s@.subrange(0, i as int) =~= s@.take(i as int));
        assert(s@.subrange(i as int + 1, s@.len() as int) =~= s@.skip(i as int + 1));
    }
    let n = chars.len();
    let w_text = substring(s, 0, i);
    let h_text = substring(s, i + 1, n);
    let w = parse_decimal(trim(w_text.as_str()).as_str(), 4294967295);
    let h = parse_decimal(trim(h_text.as_str()).as_str(), 4294967295);
    match (w, h) {
        (Some(wv), Some(hv)) => (wv as u32, hv as u32),
        _ => (1152, 768),
    }
}

/// The body of an Ark (Seedance) task: the prompt with its command suffix,
/// and the image to animate, if any.
#[derive(Debug, Clone, PartialEq, Eq)]
pub struct ArkBody {
    pub model: String,
    pub text: String,
    pub image_url: Option<String>,
}

/// The Ark body for `prompt` with the knobs' command `suffix` appended and
/// a non-empty `image_url` turning it into image-to-video.
pub fn ark_body(model: &str, prompt: &str, suffix: &str, image_url: Option<String>) -> (r: ArkBody)
    ensures
        r.model@ == model@,
        r.text@ == prompt@ + suffix@,
        r.image_url == (match image_url {
            Some(u) => if u@.len() > 0 {
                Some(u)
            } else {
                None
            },
            None => None,
        }),
{
    let image_url = match image_url {
        Some(u) => if u.unicode_len() > 0 {
            Some(u)
        } else {
            None
        },
        None => None,
    };
    ArkBody { model: owned(model), text: concat(prompt, suffix), image_url }
}

/// The body of an Agnes task: a flat object with pixel dimensions, frame
/// count and rate.
#[derive(Debug, Clone, PartialEq, Eq)]
pub struct AgnesBody {
    pub model: String,
    pub prompt: String,
    pub width: u32,
    pub height: u32,
    pub num_frames: u32,
    pub frame_rate: u32,
}

/// The frame rate of an Agnes task: a positive `fps`, else a positive
/// `frame_rate`, else 24.
pub open spec fn agnes_rate_of(fps: Option<u64>, frame_rate: Option<u64>) -> u32 {
    match positive_param(fps) {
        Some(r) => r,
        None => match positive_param(frame_rate) {
            Some(r) => r,
            None => 24,
        },
    }
}

/// The seconds an Agnes clip lasts when no frame count is given: a positive
/// duration (its low 32 bits), else 5.
pub open spec fn agnes_seconds_of(duration: Option<u64>) -> int {
    match duration {
        Some(d) => if d > 0 {
            d as int % 4294967296
        } else {
            5
        },
        None => 5,
    }
}

/// The frame count of an Agnes task: a positive `num_frames`, else the
/// clip's seconds times the rate, plus the inclusive final frame.
pub open spec fn agnes_frames_of(num_frames: Option<u64>, duration: Option<u64>, rate: u32) -> int {
    match positive_param(num_frames) {
        Some(n) => n as int,
        None => agnes_seconds_of(duration) * rate + 1,
    }
}

/// Whether the derived frame count fits in `u32`.
pub open spec fn agnes_frames_fit(num_frames: Option<u64>, duration: Option<u64>, rate: u32) -> bool {
    positive_param(num_frames) is Some || agnes_seconds_of(duration) * rate + 1 <= u32::MAX
}

/// The Agnes body for `prompt` (see [`agnes_rate_of`] and
/// [`agnes_frames_of`]); `duration` is the request's `duration`, else its
/// `seconds`.
pub fn agnes_body(
    model: &str,
    prompt: &str,
    dimensions: (u32, u32),
    fps: Option<u64>,
    frame_rate: Option<u64>,
    num_frames: Option<u64>,
    duration: Option<u64>,
) -> (r: AgnesBody)
    requires
        agnes_frames_fit(num_frames, duration, agnes_rate_of(fps, frame_rate)),
    ensures
        r.model@ == model@,
        r.prompt@ == prompt@,
        r.width == dimensions.0,
        r.height == dimensions.1,
        r.frame_rate == agnes_rate_of(fps, frame_rate),
        r.num_frames == agnes_frames_of(num_frames, duration, agnes_rate_of(fps, frame_rate)),
{
    let rate = match positive_u32(fps) {
        Some(r) => r,
        None => match positive_u32(frame_rate) {
            Some(r) => r,
            None => 24,
        },
    };
    let frames = match positive_u32(num_frames) {
        Some(n) => n,
        None => {
            let seconds: u32 = match duration {
                Some(d) => if d > 0 {
                    let low = d as u32;
                    assert(low == d % 4294967296) by (bit_vector)
                        requires
                            low == d as u32,
                    ;
                    low
                } else {
                    5
                },
                None => 5,
            };
            assert(seconds == agnes_seconds_of(duration));
            assert(seconds * rate + 1 <= u32::MAX);
            seconds * rate + 1
        },
    };
    AgnesBody {
        model: owned(model),
        prompt: owned(prompt),
        width: dimensions.0,
        height: dimensions.1,
        num_frames: frames,
        frame_rate: rate,
    }
}

/// How a polled task reads.
#[derive(Debug, Clone, PartialEq, Eq)]
pub enum VideoTaskState {
    /// Still queued or running.
    Pending,
    /// Finished, with the clip to download.
    Succeeded(String),
    /// Failed, with the vendor's reason.
    Failed(String),
}

/// How a task's ASCII-lower-cased status reads: `succeeded`, `success`,
/// `done` or `completed` is finished (a failure without a non-empty video
/// URL); `failed`, `error`, `cancelled` or `canceled` is a failure with the
/// vendor's reason; anything else, an absent status included, is pending.
pub open spec fn task_state_of(status: Seq<char>, url: Option<Seq<char>>, reason: Option<Seq<char>>) -> Result<
    Option<Seq<char>>,
    Seq<char>,
> {
    if status == "succeeded"@ || status == "success"@ || status == "done"@ || status == "completed"@ {
        match url {
            Some(u) => if u.len() > 0 {
                Ok(Some(u))
            } else {
                Err("task succeeded but returned no video URL"@)
            },
            None => Err("task succeeded but returned no video URL"@),
        }
    } else if status == "failed"@ || status == "error"@ || status == "cancelled"@ || status == "canceled"@ {
        match reason {
            Some(m) => Err(m),
            None => Err("task failed without a reason"@),
        }
    } else {
        Ok(None)
    }
}

/// Read a polled task: its status, the video URL wherever the dialect puts
/// it, and its failure reason.
pub fn parse_task_state(status: Option<String>, url: Option<String>, reason: Option<String>) -> (r: VideoTaskState)
    ensures
        ({
            let st = match status {
                Some(s) => s@.map_values(|c: char| ascii_lower(c)),
                None => Seq::empty(),
            };
            match task_state_of(st, match url {
                Some(u) => Some(u@),
                None => None,
            }, match reason {
                Some(m) => Some(m@),
                None => None,
            }) {
                Ok(None) => r == VideoTaskState::Pending,
                Ok(Some(u)) => r matches VideoTaskState::Succeeded(x) && x@ == u,
                Err(m) => r matches VideoTaskState::Failed(x) && x@ == m,
            }
        }),
{
    let lower = match &status {
        Some(s) => to_ascii_lowercase(s.as_str()),
        None => String::new(),
    };
    let l = lower.as_str();
    if str_eq(l, "succeeded") || str_eq(l, "success") || str_eq(l, "done") || str_eq(l, "completed") {
        match url {
            Some(u) => if u.unicode_len() > 0 {
                VideoTaskState::Succeeded(u)
            } else {
                VideoTaskState::Failed(owned("task succeeded but returned no video URL"))
            },
            None => VideoTaskState::Failed(owned("task succeeded but returned no video URL")),
        }
    } else if str_eq(l, "failed") || str_eq(l, "error") || str_eq(l, "cancelled") || str_eq(l, "canceled") {
        match reason {
            Some(m) => VideoTaskState::Failed(m),
            None => VideoTaskState::Failed(owned("task failed without a reason")),
        }
    } else {
        VideoTaskState::Pending
    }
}

/// The task id a submit response carries, when present and not empty.
pub fn task_id(id: Option<String>) -> (r: Option<String>)
    ensures
        r == (match id {
            Some(t) => if t@.len() > 0 {
                Some(t)
            } else {
                None
            },
            None => None,
        }),
{
    match id {
        Some(t) => if t.unicode_len() > 0 {
            Some(t)
        } else {
            None
        },
        None => None,
    }
}

/// Seconds between polls unless the request asks otherwise.
pub const VIDEO_POLL_INTERVAL_SECS: u64 = 3;

/// Polls made before a task that never finishes is given up.
pub const VIDEO_MAX_POLL_ATTEMPTS: u32 = 200;

/// What to do after a poll of a video task.
#[derive(Debug)]
pub enum VideoPoll {
    /// Wait the interval and poll again.
    Again,
    /// Download the finished clip.
    Download(String),
    /// Stop with this error.
    Stop(EngineError),
}

/// A provider rendering video through a task-based cloud API.
pub struct CloudVideoGenProvider {
    name: String,
    dialect: VideoDialect,
    base_url: String,
    api_key: String,
    models: Vec<ModelDef>,
    cost_tier: CostTier,
    output_dir: String,
}

/// Whether `c` is the card of configured model `m` of provider `p`: its
/// capability as configured, configured (unavailable without a key),
/// remote, at cost `tier`.
pub open spec fn is_video_card(c: ModelCard, p: Seq<char>, tier: CostTier, available: bool, m: ModelDef) -> bool {
    &&& capability_named(m.capability@) matches Some(cap)
    &&& c.capability == cap
    &&& c.capabilities@ == seq![cap]
    &&& c.id@ == p + "/"@ + m.name@
    &&& c.provider@ == p
    &&& c.name@ == m.name@
    &&& c.cost_tier == tier
    &&& c.availability == (if available {
        ModelAvailability::Configured
    } else {
        ModelAvailability::Unavailable
    })
    &&& c.residency == ModelResidency::Remote
    &&& c.context_window == 0
    &&& c.memory_estimate_bytes == 0
    &&& c.max_concurrency is None
    &&& c.reasoning_tier is None
}

/// The configured models whose capability is recognised, in order.
pub open spec fn recognised_defs(models: Seq<ModelDef>) -> Seq<ModelDef>
    decreases models.len(),
{
    if models.len() == 0 {
        seq![]
    } else {
        let prev = recognised_defs(models.drop_last());
        if capability_named(models.last().capability@) is Some {
            prev.push(models.last())
        } else {
            prev
        }
    }
}

impl CloudVideoGenProvider {
    pub closed spec fn spec_name(&self) -> Seq<char> {
        self.name@
    }

    pub closed spec fn spec_dialect(&self) -> VideoDialect {
        self.dialect
    }

    pub closed spec fn spec_base_url(&self) -> Seq<char> {
        self.base_url@
    }

    pub closed spec fn spec_api_key(&self) -> Seq<char> {
        self.api_key@
    }

    pub closed spec fn spec_models(&self) -> Seq<ModelDef> {
        self.models@
    }

    pub closed spec fn spec_cost_tier(&self) -> CostTier {
        self.cost_tier
    }

    pub closed spec fn spec_output_dir(&self) -> Seq<char> {
        self.output_dir@
    }

    /// A provider speaking `dialect` (see [`dialect_named`]) at `base_url`
    /// (see [`base_url_for`]). The key is the configured one when not empty,
    /// else the dialect's environment variable (`env_value`); without one the
    /// provider is built but unavailable. Artifacts go to `output_dir` when
    /// configured, else to `default_dir`.
    pub fn new(
        name: &str,
        dialect: &str,
        base_url: &str,
        api_key: Option<String>,
        env_value: Option<String>,
        models: Vec<ModelDef>,
        cost_tier: CostTier,
        output_dir: Option<String>,
        default_dir: String,
    ) -> (r: Self)
        ensures
            r.spec_name() == name@,
            r.spec_dialect() == dialect_named(dialect@),
            r.spec_base_url() == base_url_for(dialect_named(dialect@), base_url@),
            r.spec_api_key() == api_key_for(api_key, env_value),
            r.spec_models() == models@,
            r.spec_cost_tier() == cost_tier,
            r.spec_output_dir() == artifact_dir_for(output_dir, default_dir@),
    {
        let d = VideoDialect::from_str_loose(dialect);
        CloudVideoGenProvider {
            name: owned(name),
            dialect: d,
            base_url: resolve_base_url(d, base_url),
            api_key: resolve_api_key(api_key, env_value),
            models,
            cost_tier,
            output_dir: resolve_artifact_dir(output_dir, default_dir),
        }
    }

    pub fn name(&self) -> (r: &str)
        ensures
            r@ == self.spec_name(),
    {
        self.name.as_str()
    }

    pub fn dialect(&self) -> (r: VideoDialect)
        ensures
            r == self.spec_dialect(),
    {
        self.dialect
    }

    pub fn base_url(&self) -> (r: &str)
        ensures
            r@ == self.spec_base_url(),
    {
        self.base_url.as_str()
    }

    pub fn api_key(&self) -> (r: &str)
        ensures
            r@ == self.spec_api_key(),
    {
        self.api_key.as_str()
    }

    pub fn output_dir(&self) -> (r: &str)
        ensures
            r@ == self.spec_output_dir(),
    {
        self.output_dir.as_str()
    }

    /// Whether a key was resolved.
    pub fn is_available(&self) -> (r: bool)
        ensures
            r == (self.spec_api_key().len() > 0),
    {
        self.api_key.unicode_len() > 0
    }

    pub fn kind(&self) -> (r: ProviderKind)
        ensures
            r == ProviderKind::CloudVideoGen,
    {
        ProviderKind::CloudVideoGen
    }

    /// Discovery, load and unload (no memory reporting: nothing is local).
    pub fn features(&self) -> (r: Vec<BackendFeature>)
        ensures
            r@ == seq![BackendFeature::Discovery, BackendFeature::Load, BackendFeature::Unload],
    {
        vec![BackendFeature::Discovery, BackendFeature::Load, BackendFeature::Unload]
    }

    /// Healthy with a key, unavailable without.
    pub fn health(&self) -> (r: BackendHealth)
        ensures
            r == (if self.spec_api_key().len() > 0 {
                BackendHealth::Healthy
            } else {
                BackendHealth::Unavailable
            }),
    {
        if self.is_available() {
            BackendHealth::Healthy
        } else {
            BackendHealth::Unavailable
        }
    }

    /// The cards of the configured models whose capability is recognised,
    /// in order (see [`is_video_card`]).
    pub fn discover(&self) -> (r: Vec<ModelCard>)
        ensures
            r@.len() == recognised_defs(self.spec_models()).len(),
            forall|i: int|
                0 <= i < r@.len() ==> is_video_card(
                    #[trigger] r@[i],
                    self.spec_name(),
                    self.spec_cost_tier(),
                    self.spec_api_key().len() > 0,
                    recognised_defs(self.spec_models())[i],
                ),
    {
        let available = self.is_available();
        let mut out: Vec<ModelCard> = Vec::new();
        let mut i: usize = 0;
        while i < self.models.len()
            invariant
                i <= self.models@.len(),
                available == (self.api_key@.len() > 0),
                out@.len() == recognised_defs(self.models@.take(i as int)).len(),
                forall|k: int|
                    0 <= k < out@.len() ==> is_video_card(
                        #[trigger] out@[k],
                        self.name@,
                        self.cost_tier,
                        available,
                        recognised_defs(self.models@.take(i as int))[k],
                    ),
            decreases self.models.len() - i,
        {
            assert(self.models@.take(i as int + 1).drop_last() =~= self.models@.take(i as int));
            let m = &self.models[i];
            if let Some(cap) = Capability::from_str_loose(m.capability.as_str()) {
                let card = ModelCard {
                    id: ModelId::canonical(self.name.as_str(), m.name.as_str()),
                    provider: owned(self.name.as_str()),
                    name: owned(m.name.as_str()),
                    capability: cap,
                    capabilities: vec![cap],
                    cost_tier: self.cost_tier,
                    availability: if available {
                        ModelAvailability::Configured
                    } else {
                        ModelAvailability::Unavailable
                    },
                    residency: ModelResidency::Remote,
                    context_window: 0,
                    memory_estimate_bytes: 0,
                    max_concurrency: None,
                    reasoning_tier: None,
                };
                assert(card.capabilities@ =~= seq![cap]);
                out.push(card);
            }
            i = i + 1;
        }
        assert(self.models@.take(self.models@.len() as int) =~= self.models@);
        out
    }

    /// Loading or unloading changes nothing: the model stays remote, holding
    /// no memory, under its canonical id.
    pub fn lifecycle(&self, model_id: &str) -> (r: LifecycleResult)
        ensures
            r.model_id@ == self.spec_name() + "/"@ + model_name_of(model_id@),
            r.residency == ModelResidency::Remote,
            r.memory_bytes == Some(0u64),
            !r.changed,
    {
        let name = ModelId::name(model_id);
        LifecycleResult {
            model_id: ModelId::canonical(self.name.as_str(), name.as_str()),
            residency: ModelResidency::Remote,
            memory_bytes: Some(0),
            changed: false,
        }
    }

    /// The checks before a render (see [`call_verdict`]): only video
    /// generation, only on a configured video model.
    pub fn check_call(&self, model_id: &str, requested: Option<Capability>) -> (r: Result<
        String,
        EngineError,
    >)
        ensures
            call_verdict(self.spec_name(), self.spec_models(), model_id@, requested, Capability::VideoGen)
                matches Ok(n) ==> (r matches Ok(x) && x@ == n),
            call_verdict(self.spec_name(), self.spec_models(), model_id@, requested, Capability::VideoGen)
                matches Err(m) ==> (r matches Err(EngineError::UnsupportedOperation(e)) && e@ == m),
    {
        check_call(self.name.as_str(), self.models.as_slice(), model_id, requested, Capability::VideoGen)
    }

    /// A render needs a key: without one it is refused naming the dialect's
    /// environment variable.
    pub fn check_credentials(&self) -> (r: Result<(), EngineError>)
        ensures
            self.spec_api_key().len() > 0 ==> r is Ok,
            self.spec_api_key().len() == 0 ==> (r matches Err(EngineError::ProviderError { provider, detail })
                && provider@ == self.spec_name() && detail@ == "no "@ + (match self.spec_dialect() {
                VideoDialect::Ark => "ARK_API_KEY"@,
                VideoDialect::Agnes => "AGNES_API_KEY"@,
            }) + " credentials configured"@),
    {
        if self.is_available() {
            Ok(())
        } else {
            let a = concat("no ", self.dialect.api_key_env());
            Err(self.provider_error(concat(a.as_str(), " credentials configured")))
        }
    }

    /// The prompt of a render: the first message, else the `prompt`
    /// parameter, when not blank (see [`request_text`]).
    pub fn prompt(&self, first_message: Option<String>, param: Option<String>) -> (r: Result<
        String,
        EngineError,
    >)
        ensures
            request_text(first_message, param) matches Some(t) ==> (r matches Ok(x) && x@ == t),
            request_text(first_message, param) is None ==> (r matches Err(
                EngineError::InvalidRequest(m),
            ) && m@ == "video_gen requires a prompt"@),
    {
        take_request_text(first_message, param, "video_gen requires a prompt")
    }

    /// An error of this provider.
    pub fn provider_error(&self, detail: String) -> (r: EngineError)
        ensures
            r matches EngineError::ProviderError { provider, detail: d } && provider@
                == self.spec_name() && d@ == detail@,
    {
        EngineError::ProviderError { provider: owned(self.name.as_str()), detail }
    }

    /// The endpoint of the dialect's tasks: `<base_url>/contents/generations/tasks`
    /// for Ark, `<base_url>/videos` for Agnes.
    pub fn tasks_url(&self) -> (r: String)
        ensures
            r@ == self.spec_base_url() + "/"@ + (match self.spec_dialect() {
                VideoDialect::Ark => "contents/generations/tasks"@,
                VideoDialect::Agnes => "videos"@,
            }),
    {
        let path = match self.dialect {
            VideoDialect::Ark => "contents/generations/tasks",
            VideoDialect::Agnes => "videos",
        };
        let head = concat(self.base_url.as_str(), "/");
        concat(head.as_str(), path)
    }

    /// What follows the `attempt`-th poll (counting from 1) of task
    /// `task_id`: poll again while pending and attempts remain; download a
    /// finished clip; stop on a failed task, or once the last attempt finds
    /// it still pending.
    pub fn after_poll(&self, task_id: &str, attempt: u32, state: VideoTaskState) -> (r: VideoPoll)
        requires
            1 <= attempt <= VIDEO_MAX_POLL_ATTEMPTS,
        ensures
            state == VideoTaskState::Pending && attempt < VIDEO_MAX_POLL_ATTEMPTS ==> r is Again,
            state == VideoTaskState::Pending && attempt == VIDEO_MAX_POLL_ATTEMPTS ==> (r matches VideoPoll::Stop(
                EngineError::ProviderError { provider, detail },
            ) && provider@ == self.spec_name() && detail@ == "video task "@ + task_id@
                + " did not finish within 200 polls"@),
            state matches VideoTaskState::Succeeded(u) ==> (r matches VideoPoll::Download(x) && x@ == u@),
            state matches VideoTaskState::Failed(why) ==> (r matches VideoPoll::Stop(
                EngineError::ProviderError { provider, detail },
            ) && provider@ == self.spec_name() && detail@ == "video task "@ + task_id@ + " failed: "@
                + why@),
    {
        match state {
            VideoTaskState::Pending => {
                if attempt < VIDEO_MAX_POLL_ATTEMPTS {
                    VideoPoll::Again
                } else {
                    let a = concat("video task ", task_id);
                    let d = concat(a.as_str(), " did not finish within 200 polls");
                    VideoPoll::Stop(self.provider_error(d))
                }
            },
            VideoTaskState::Succeeded(u) => VideoPoll::Download(u),
            VideoTaskState::Failed(why) => {
                let a = concat("video task ", task_id);
                let b = concat(a.as_str(), " failed: ");
                let d = concat(b.as_str(), why.as_str());
                VideoPoll::Stop(self.provider_error(d))
            },
        }
    }

    /// Downloaded video must not be empty.
    pub fn check_video(&self, len: usize) -> (r: Result<(), EngineError>)
        ensures
            len > 0 ==> r is Ok,
            len == 0 ==> (r matches Err(EngineError::ProviderError { provider, detail })
                && provider@ == self.spec_name() && detail@ == "video download was empty"@),
    {
        if len == 0 {
            Err(self.provider_error(owned("video download was empty")))
        } else {
            Ok(())
        }
    }
}

} // verus!
