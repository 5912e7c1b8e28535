//! Task-based video generation (create, poll, download), as DashScope's
//! video synthesis and similar vendor APIs run it: the task request, how a
//! polled status is read, the bound on polling, and the configured models.

use vstd::prelude::*;

use crate::artifacts::{artifact_dir_for, resolve_artifact_dir};
use crate::catalog::{
    capability_named, BackendFeature, BackendHealth, Capability, CostTier, LifecycleResult,
    ModelAvailability, ModelCard, ModelResidency, ProviderKind,
};
use crate::config::ModelDef;
use crate::kernel::EngineError;
use crate::text::{concat, owned, str_eq, u64_to_decimal, decimal};

verus! {

/// Seconds between polls of a task.
pub const POLL_INTERVAL_SECS: u64 = 2;

/// Seconds after which a task that has not finished is given up.
pub const POLL_DEADLINE_SECS: u64 = 600;

/// How a polled task status reads.
#[derive(Debug)]
pub enum TaskStep {
    /// Succeeded: fetch the video.
    Done,
    /// Still pending or running: poll again.
    Wait,
    /// Ended unsuccessfully, or was given up.
    Stop(EngineError),
}

/// The fields of a task-creation request.
#[derive(Debug, Clone, PartialEq, Eq)]
pub struct TaskRequest {
    pub model: String,
    pub prompt: String,
    /// Clip length in seconds, when given as an unsigned integer.
    pub duration: Option<u64>,
    /// Frame size as `WxH`, when given as text.
    pub size: Option<String>,
}

/// The outcome of a task status (absent reads as `UNKNOWN`): `SUCCEEDED`
/// is done; `FAILED`, `CANCELED` and `UNKNOWN` end the task with the
/// vendor's message (or "no failure detail"); anything else is pending.
pub open spec fn task_outcome(status: Option<Seq<char>>, message: Option<Seq<char>>) -> Option<
    Result<(), Seq<char>>,
> {
    let s = match status {
        Some(s) => s,
        None => "UNKNOWN"@,
    };
    if s == "SUCCEEDED"@ {
        Some(Ok(()))
    } else if s == "FAILED"@ || s == "CANCELED"@ || s == "UNKNOWN"@ {
        Some(
            Err(
                match message {
                    Some(m) => m,
                    None => "no failure detail"@,
                },
            ),
        )
    } else {
        None
    }
}

/// A provider for a task-based video API.
pub struct VideoTaskProvider {
    name: String,
    base_url: String,
    api_key: String,
    models: Vec<ModelDef>,
    cost_tier: CostTier,
    output_dir: String,
}

/// Whether `c` is the card of the configured model `m` of provider `p` at
/// cost `tier`: configured, remote, its window as configured (else 0), no
/// memory of its own, and up to four tasks at once.
pub open spec fn is_task_card(c: ModelCard, p: Seq<char>, tier: CostTier, m: ModelDef) -> bool {
    &&& capability_named(m.capability@) matches Some(cap)
    &&& c.capability == cap
    &&& c.capabilities@ == seq![cap]
    &&& c.id@ == p + "/"@ + m.name@
    &&& c.provider@ == p
    &&& c.name@ == m.name@
    &&& c.cost_tier == tier
    &&& c.availability == ModelAvailability::Configured
    &&& c.residency == ModelResidency::Remote
    &&& c.context_window == (match m.context_window {
        Some(w) => w,
        None => 0,
    })
    &&& c.memory_estimate_bytes == 0
    &&& c.max_concurrency == Some(4u32)
    &&& c.reasoning_tier is None
}

/// The configured models whose capability is recognised.
pub open spec fn recognised(models: Seq<ModelDef>) -> Seq<ModelDef>
    decreases models.len(),
{
    if models.len() == 0 {
        seq![]
    } else {
        let prev = recognised(models.drop_last());
        if capability_named(models.last().capability@) is Some {
            prev.push(models.last())
        } else {
            prev
        }
    }
}

impl VideoTaskProvider {
    pub closed spec fn spec_name(&self) -> Seq<char> {
        self.name@
    }

    pub closed spec fn spec_base_url(&self) -> Seq<char> {
        self.base_url@
    }

    pub closed spec fn spec_api_key(&self) -> Seq<char> {
        self.api_key@
    }

    pub closed spec fn spec_models(&self) -> Seq<ModelDef> {
        self.models@
    }

    pub closed spec fn spec_cost_tier(&self) -> CostTier {
        self.cost_tier
    }

    pub closed spec fn spec_output_dir(&self) -> Seq<char> {
        self.output_dir@
    }

    /// A provider for the API at `base_url`; videos are written to
    /// `output_dir` when one is configured, else to `temp_dir`.
    pub fn new(
        name: &str,
        base_url: &str,
        api_key: &str,
        models: Vec<ModelDef>,
        cost_tier: CostTier,
        output_dir: Option<String>,
        temp_dir: String,
    ) -> (r: Self)
        ensures
            r.spec_name() == name@,
            r.spec_base_url() == base_url@,
            r.spec_api_key() == api_key@,
            r.spec_models() == models@,
            r.spec_cost_tier() == cost_tier,
            r.spec_output_dir() == (match output_dir {
                Some(d) => if d@.len() > 0 {
                    d@
                } else {
                    temp_dir@
                },
                None => temp_dir@,
            }),
    {
        let dir = match output_dir {
            Some(d) => if d.unicode_len() > 0 {
                d
            } else {
                temp_dir
            },
            None => temp_dir,
        };
        VideoTaskProvider {
            name: owned(name),
            base_url: owned(base_url),
            api_key: owned(api_key),
            models,
            cost_tier,
            output_dir: dir,
        }
    }

    pub fn name(&self) -> (r: &str)
        ensures
            r@ == self.spec_name(),
    {
        self.name.as_str()
    }

    pub fn api_key(&self) -> (r: &str)
        ensures
            r@ == self.spec_api_key(),
    {
        self.api_key.as_str()
    }

    pub fn output_dir(&self) -> (r: &str)
        ensures
            r@ == self.spec_output_dir(),
    {
        self.output_dir.as_str()
    }

    pub fn kind(&self) -> (r: ProviderKind)
        ensures
            r == ProviderKind::VideoTask,
    {
        ProviderKind::VideoTask
    }

    /// No optional features.
    pub fn features(&self) -> (r: Vec<BackendFeature>)
        ensures
            r@.len() == 0,
    {
        Vec::new()
    }

    /// Unavailable without an API key, healthy otherwise.
    pub fn health(&self) -> (r: BackendHealth)
        ensures
            r == (if self.spec_api_key().len() == 0 {
                BackendHealth::Unavailable
            } else {
                BackendHealth::Healthy
            }),
    {
        if self.api_key.unicode_len() == 0 {
            BackendHealth::Unavailable
        } else {
            BackendHealth::Healthy
        }
    }

    /// The cards of the configured models whose capability is recognised,
    /// in order (see [`is_task_card`]).
    pub fn discover(&self) -> (r: Vec<ModelCard>)
        ensures
            r@.len() == recognised(self.spec_models()).len(),
            forall|i: int|
                0 <= i < r@.len() ==> is_task_card(
                    #[trigger] r@[i],
                    self.spec_name(),
                    self.spec_cost_tier(),
                    recognised(self.spec_models())[i],
                ),
    {
        let mut out: Vec<ModelCard> = Vec::new();
        let mut i: usize = 0;
        while i < self.models.len()
            invariant
                i <= self.models@.len(),
                out@.len() == recognised(self.models@.take(i as int)).len(),
                forall|k: int|
                    0 <= k < out@.len() ==> is_task_card(
                        #[trigger] out@[k],
                        self.name@,
                        self.cost_tier,
                        recognised(self.models@.take(i as int))[k],
                    ),
            decreases self.models.len() - i,
        {
            assert(self.models@.take(i as int + 1).drop_last() =~= self.models@.take(i as int));
            let m = &self.models[i];
            if let Some(cap) = Capability::from_str_loose(m.capability.as_str()) {
                let head = concat(self.name.as_str(), "/");
                let card = ModelCard {
                    id: concat(head.as_str(), m.name.as_str()),
                    provider: owned(self.name.as_str()),
                    name: owned(m.name.as_str()),
                    capability: cap,
                    capabilities: vec![cap],
                    cost_tier: self.cost_tier,
                    availability: ModelAvailability::Configured,
                    residency: ModelResidency::Remote,
                    context_window: match m.context_window {
                        Some(w) => w,
                        None => 0,
                    },
                    memory_estimate_bytes: 0,
                    max_concurrency: Some(4),
                    reasoning_tier: None,
                };
                assert(card.capabilities@ =~= seq![cap]);
                out.push(card);
            }
            i = i + 1;
        }
        assert(self.models@.take(self.models@.len() as int) =~= self.models@);
        out
    }

    /// Loading or unloading changes nothing: the model stays remote, holding
    /// no memory, under the id it was asked by.
    pub fn lifecycle(&self, model_id: &str) -> (r: LifecycleResult)
        ensures
            r.model_id@ == model_id@,
            r.residency == ModelResidency::Remote,
            r.memory_bytes == Some(0u64),
            !r.changed,
    {
        LifecycleResult {
            model_id: owned(model_id),
            residency: ModelResidency::Remote,
            memory_bytes: Some(0),
            changed: false,
        }
    }

    /// The request that creates a task: the model, the first message as the
    /// prompt (a request without messages is invalid), and the optional
    /// duration and size.
    pub fn task_request(
        &self,
        model_name: &str,
        first_message: Option<String>,
        duration: Option<u64>,
        size: Option<String>,
    ) -> (r: Result<TaskRequest, EngineError>)
        ensures
            first_message is None ==> (r matches Err(EngineError::InvalidRequest(m)) && m@
                == "video generation requires a prompt"@),
            first_message matches Some(p) ==> (r matches Ok(t) && t.model@ == model_name@ && t.prompt@
                == p@ && t.duration == duration && t.size == size),
    {
        match first_message {
            Some(p) => Ok(TaskRequest { model: owned(model_name), prompt: p, duration, size }),
            None => Err(EngineError::InvalidRequest(owned("video generation requires a prompt"))),
        }
    }

    /// The endpoint that creates tasks: `<base_url>/video-synthesis`.
    pub fn create_url(&self) -> (r: String)
        ensures
            r@ == self.spec_base_url() + "/video-synthesis"@,
    {
        concat(self.base_url.as_str(), "/video-synthesis")
    }

    /// The endpoint that reports a task: `<base_url>/tasks/<task_id>`.
    pub fn task_url(&self, task_id: &str) -> (r: String)
        ensures
            r@ == self.spec_base_url() + "/tasks/"@ + task_id@,
    {
        let head = concat(self.base_url.as_str(), "/tasks/");
        concat(head.as_str(), task_id)
    }

    /// How a poll of task `task_id` reads (see [`task_outcome`]); a task
    /// that ended unsuccessfully is a provider error naming it.
    pub fn task_step(&self, task_id: &str, status: Option<&str>, message: Option<&str>) -> (r: TaskStep)
        ensures
            match task_outcome(
                match status {
                    Some(s) => Some(s@),
                    None => None,
                },
                match message {
                    Some(m) => Some(m@),
                    None => None,
                },
            ) {
                Some(Ok(())) => r is Done,
                None => r is Wait,
                Some(Err(why)) => (r matches TaskStep::Stop(
                    EngineError::ProviderError { provider, detail },
                ) && provider@ == self.spec_name() && detail@ == "video task '"@ + task_id@
                    + "' ended unsuccessfully: "@ + why),
            },
    {
        let s = match status {
            Some(s) => s,
            None => "UNKNOWN",
        };
        if str_eq(s, "SUCCEEDED") {
            TaskStep::Done
        } else if str_eq(s, "FAILED") || str_eq(s, "CANCELED") || str_eq(s, "UNKNOWN") {
            let why = match message {
                Some(m) => m,
                None => "no failure detail",
            };
            let a = concat("video task '", task_id);
            let b = concat(a.as_str(), "' ended unsuccessfully: ");
            TaskStep::Stop(
                EngineError::ProviderError {
                    provider: owned(self.name.as_str()),
                    detail: concat(b.as_str(), why),
                },
            )
        } else {
            TaskStep::Wait
        }
    }

    /// Whether polling must stop: `elapsed_secs` since the task was created
    /// have reached the deadline.
    pub fn past_deadline(&self, elapsed_secs: u64) -> (r: bool)
        ensures
            r == (elapsed_secs >= POLL_DEADLINE_SECS),
    {
        elapsed_secs >= POLL_DEADLINE_SECS
    }

    /// The error of a task given up at the deadline.
    pub fn deadline_error(&self, task_id: &str) -> (r: EngineError)
        ensures
            r matches EngineError::Timeout(m) && m@ == "video task '"@ + task_id@
                + "' did not finish within 600s"@,
    {
        let a = concat("video task '", task_id);
        EngineError::Timeout(concat(a.as_str(), "' did not finish within 600s"))
    }
}

} // verus!
