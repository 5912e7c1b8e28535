//! Engine configuration: listen address, memory, timeouts, artifact retention,
//! file-access limits and providers, with their defaults, the validation of
//! provider entries, the providers detected from API keys, and `${VAR}`
//! references in API keys.

use vstd::prelude::*;
use std::time::Duration;

use crate::catalog::{capability_named, Capability, ProviderKind};
use crate::clock::{duration_from_secs, duration_nanos};
use crate::kernel::EngineError;
use crate::text::{concat, has_prefix, owned, starts_with, str_eq, substring};

verus! {

/// Default retention of generated artifacts, in seconds.
pub fn default_artifact_retention() -> (r: u64)
    ensures
        r == 3600,
{
    3600
}

/// Default listen host.
pub fn default_host() -> (r: String)
    ensures
        r@ == "127.0.0.1"@,
{
    owned("127.0.0.1")
}

/// Default listen port.
pub fn default_port() -> (r: u16)
    ensures
        r == 8420,
{
    8420
}

/// Default idle time before a model is unloaded, in seconds.
pub fn default_idle_timeout() -> (r: u64)
    ensures
        r == 120,
{
    120
}

/// Default overall request budget, in seconds.
pub fn default_request_timeout() -> (r: u64)
    ensures
        r == 240,
{
    240
}

/// Default queue-wait budget, in seconds.
pub fn default_queue_timeout() -> (r: u64)
    ensures
        r == 30,
{
    30
}

/// Default model-load budget, in seconds.
pub fn default_load_timeout() -> (r: u64)
    ensures
        r == 60,
{
    60
}

/// Default inference budget, in seconds.
pub fn default_inference_timeout() -> (r: u64)
    ensures
        r == 180,
{
    180
}

/// Default discovery probe budget, in seconds.
pub fn default_discovery_timeout() -> (r: u64)
    ensures
        r == 8,
{
    8
}

/// Default health probe budget, in seconds.
pub fn default_health_timeout() -> (r: u64)
    ensures
        r == 5,
{
    5
}

/// Default routing priority of a provider.
pub fn default_priority() -> (r: u8)
    ensures
        r == 5,
{
    5
}

/// Default cost tier of a provider.
pub fn default_cost_tier() -> (r: String)
    ensures
        r@ == "medium"@,
{
    owned("medium")
}

/// Providers are enabled unless configured otherwise.
pub fn default_enabled() -> (r: bool)
    ensures
        r,
{
    true
}

/// Retention policy for engine-generated artifacts.
#[derive(Debug, Clone)]
pub struct ArtifactConfig {
    /// Directory scanned for cleanup (`None`: the system temp dir).
    pub dir: Option<String>,
    /// Delete engine artifacts older than this many seconds; `0` disables the
    /// background sweep.
    pub retention_secs: u64,
}

impl Default for ArtifactConfig {
    fn default() -> (r: Self)
        ensures
            r.dir is None,
            r.retention_secs == 3600,
    {
        ArtifactConfig { dir: None, retention_secs: default_artifact_retention() }
    }
}

/// Security and file-access constraints.
#[derive(Debug, Clone)]
pub struct SecurityConfig {
    /// Directory roots that request input files must fall under; empty allows
    /// any local path.
    pub input_roots: Vec<String>,
}

impl Default for SecurityConfig {
    fn default() -> (r: Self)
        ensures
            r.input_roots@.len() == 0,
    {
        SecurityConfig { input_roots: Vec::new() }
    }
}

/// Network listen configuration.
#[derive(Debug, Clone)]
pub struct ListenConfig {
    pub host: String,
    pub port: u16,
}

impl Default for ListenConfig {
    fn default() -> (r: Self)
        ensures
            r.host@ == "127.0.0.1"@,
            r.port == 8420,
    {
        ListenConfig { host: default_host(), port: default_port() }
    }
}

/// Memory management configuration.
#[derive(Debug, Clone)]
pub struct MemoryConfig {
    /// Memory budget in megabytes (`None`: derived from the machine).
    pub budget_mb: Option<u64>,
    /// Seconds of idle time before a model is unloaded.
    pub idle_timeout_secs: u64,
}

impl Default for MemoryConfig {
    fn default() -> (r: Self)
        ensures
            r.budget_mb is None,
            r.idle_timeout_secs == 120,
    {
        MemoryConfig { budget_mb: None, idle_timeout_secs: default_idle_timeout() }
    }
}

/// Timeouts for the phases of a request, in seconds.
#[derive(Debug, Clone)]
pub struct TimeoutConfig {
    /// Overall budget of one request across every candidate tried.
    pub request_secs: u64,
    /// Longest wait for a concurrency permit.
    pub queue_secs: u64,
    /// Longest load of one model.
    pub load_secs: u64,
    /// Longest single inference call.
    pub inference_secs: u64,
    /// Longest provider discovery probe.
    pub discovery_secs: u64,
    /// Longest provider health probe.
    pub health_secs: u64,
}

impl Default for TimeoutConfig {
    fn default() -> (r: Self)
        ensures
            r.request_secs == 240,
            r.queue_secs == 30,
            r.load_secs == 60,
            r.inference_secs == 180,
            r.discovery_secs == 8,
            r.health_secs == 5,
    {
        TimeoutConfig {
            request_secs: default_request_timeout(),
            queue_secs: default_queue_timeout(),
            load_secs: default_load_timeout(),
            inference_secs: default_inference_timeout(),
            discovery_secs: default_discovery_timeout(),
            health_secs: default_health_timeout(),
        }
    }
}

impl TimeoutConfig {
    /// The overall request budget.
    pub fn request(&self) -> (d: Duration)
        ensures
            duration_nanos(d) == self.request_secs * 1_000_000_000,
    {
        duration_from_secs(self.request_secs)
    }

    /// The queue-wait budget.
    pub fn queue(&self) -> (d: Duration)
        ensures
            duration_nanos(d) == self.queue_secs * 1_000_000_000,
    {
        duration_from_secs(self.queue_secs)
    }

    /// The model-load budget.
    pub fn load(&self) -> (d: Duration)
        ensures
            duration_nanos(d) == self.load_secs * 1_000_000_000,
    {
        duration_from_secs(self.load_secs)
    }

    /// The inference budget.
    pub fn inference(&self) -> (d: Duration)
        ensures
            duration_nanos(d) == self.inference_secs * 1_000_000_000,
    {
        duration_from_secs(self.inference_secs)
    }

    /// The discovery probe budget.
    pub fn discovery(&self) -> (d: Duration)
        ensures
            duration_nanos(d) == self.discovery_secs * 1_000_000_000,
    {
        duration_from_secs(self.discovery_secs)
    }

    /// The health probe budget.
    pub fn health(&self) -> (d: Duration)
        ensures
            duration_nanos(d) == self.health_secs * 1_000_000_000,
    {
        duration_from_secs(self.health_secs)
    }
}

/// A model definition within a provider.
#[derive(Debug, Clone)]
pub struct ModelDef {
    /// Model name (the provider's own identifier).
    pub name: String,
    /// Capability name (`chat`, `tts`, ...).
    pub capability: String,
    /// Context window in tokens.
    pub context_window: Option<u32>,
    /// Estimated memory in megabytes.
    pub memory_mb: Option<u64>,
    /// The reasoning tier (`low`, `medium`, `high`) the model serves, for
    /// effort-based routing.
    pub reasoning_tier: Option<String>,
}

impl Default for ModelDef {
    fn default() -> (r: Self)
        ensures
            r.name@.len() == 0,
            r.capability@.len() == 0,
            r.context_window is None,
            r.memory_mb is None,
            r.reasoning_tier is None,
    {
        ModelDef {
            name: String::new(),
            capability: String::new(),
            context_window: None,
            memory_mb: None,
            reasoning_tier: None,
        }
    }
}

/// Configuration of one provider.
#[derive(Debug, Clone)]
pub struct ProviderConfig {
    /// Display name.
    pub name: String,
    /// Kind name: `ollama`, `openai_compatible` or `local_tts`.
    pub kind: String,
    /// Base URL of the API.
    pub base_url: String,
    /// API key (a `${VAR}` reference is resolved when the file is read).
    pub api_key: Option<String>,
    /// Routing priority (lower is preferred).
    pub priority: u8,
    /// Cost tier name.
    pub cost_tier: String,
    /// Explicit model definitions.
    pub models: Vec<ModelDef>,
    /// Whether the provider is used.
    pub enabled: bool,
    /// Program run by a `local_tts` provider.
    pub command: Option<String>,
    /// Argument template of a `local_tts` command.
    pub args: Vec<String>,
    /// Output audio format of a `local_tts` provider.
    pub output_format: Option<String>,
    /// Artifact directory of a `local_tts` provider.
    pub output_dir: Option<String>,
}

impl Default for ProviderConfig {
    fn default() -> (r: Self)
        ensures
            r.name@.len() == 0,
            r.kind@.len() == 0,
            r.base_url@.len() == 0,
            r.api_key is None,
            r.priority == 5,
            r.cost_tier@ == "medium"@,
            r.models@.len() == 0,
            r.enabled,
            r.command is None,
            r.args@.len() == 0,
            r.output_format is None,
            r.output_dir is None,
    {
        ProviderConfig {
            name: String::new(),
            kind: String::new(),
            base_url: String::new(),
            api_key: None,
            priority: default_priority(),
            cost_tier: default_cost_tier(),
            models: Vec::new(),
            enabled: default_enabled(),
            command: None,
            args: Vec::new(),
            output_format: None,
            output_dir: None,
        }
    }
}

/// The provider kind a configuration name denotes.
pub open spec fn kind_named(s: Seq<char>) -> Option<ProviderKind> {
    if s == "ollama"@ {
        Some(ProviderKind::Ollama)
    } else if s == "openai_compatible"@ {
        Some(ProviderKind::OpenAiCompatible)
    } else if s == "local_tts"@ {
        Some(ProviderKind::LocalTts)
    } else {
        None
    }
}

/// The message for a provider whose kind is not known.
pub open spec fn unknown_kind_message(kind: Seq<char>, name: Seq<char>) -> Seq<char> {
    "unknown provider kind '"@ + kind + "' for provider '"@ + name + "'"@
}

impl ProviderConfig {
    /// The configured provider kind.
    pub fn provider_kind(&self) -> (r: Result<ProviderKind, EngineError>)
        ensures
            kind_named(self.kind@) matches Some(k) ==> r == Ok::<ProviderKind, EngineError>(k),
            kind_named(self.kind@) is None ==> (r matches Err(EngineError::Config(m)) && m@
                == unknown_kind_message(self.kind@, self.name@)),
    {
        let k = self.kind.as_str();
        if str_eq(k, "ollama") {
            Ok(ProviderKind::Ollama)
        } else if str_eq(k, "openai_compatible") {
            Ok(ProviderKind::OpenAiCompatible)
        } else if str_eq(k, "local_tts") {
            Ok(ProviderKind::LocalTts)
        } else {
            let a = concat("unknown provider kind '", k);
            let b = concat(a.as_str(), "' for provider '");
            let c = concat(b.as_str(), self.name.as_str());
            Err(EngineError::Config(concat(c.as_str(), "'")))
        }
    }
}

/// Whether an optional string is missing or empty.
pub open spec fn blank_option(o: Option<String>) -> bool {
    match o {
        Some(s) => s@.len() == 0,
        None => true,
    }
}

/// The first model whose capability name is not known, if any.
pub open spec fn first_unknown_capability(models: Seq<ModelDef>) -> Option<ModelDef>
    decreases models.len(),
{
    if models.len() == 0 {
        None
    } else if capability_named(models[0].capability@) is None {
        Some(models[0])
    } else {
        first_unknown_capability(models.drop_first())
    }
}

/// What is wrong with one provider entry, if anything (disabled entries are
/// not checked).
pub open spec fn provider_issue(p: ProviderConfig) -> Option<Seq<char>> {
    if !p.enabled {
        None
    } else if kind_named(p.kind@) is None {
        Some(unknown_kind_message(p.kind@, p.name@))
    } else if p.kind@ == "openai_compatible"@ && blank_option(p.api_key) {
        Some("provider '"@ + p.name@ + "' requires a non-empty api_key"@)
    } else if p.kind@ == "local_tts"@ && blank_option(p.command) {
        Some("provider '"@ + p.name@ + "' (local_tts) requires a non-empty command"@)
    } else if p.kind@ == "local_tts"@ && p.models@.len() == 0 {
        Some("provider '"@ + p.name@ + "' (local_tts) must declare at least one model"@)
    } else {
        match first_unknown_capability(p.models@) {
            Some(m) => Some(
                "provider '"@ + p.name@ + "' model '"@ + m.name@ + "' has unknown capability '"@
                    + m.capability@ + "'"@,
            ),
            None => None,
        }
    }
}

/// The first problem among provider entries, in order.
pub open spec fn first_issue(providers: Seq<ProviderConfig>) -> Option<Seq<char>>
    decreases providers.len(),
{
    if providers.len() == 0 {
        None
    } else {
        match provider_issue(providers[0]) {
            Some(m) => Some(m),
            None => first_issue(providers.drop_first()),
        }
    }
}

/// Whether some entry has the issue `m` while every entry before it has
/// none.
pub open spec fn first_failing_entry(providers: Seq<ProviderConfig>, m: Seq<char>) -> bool {
    exists|i: int|
        0 <= i < providers.len() && #[trigger] provider_issue(providers[i]) == Some(m) && forall|j: int|
            0 <= j < i ==> (#[trigger] provider_issue(providers[j])) is None
}

/// Law: validation looks at every entry. The configuration passes exactly
/// when no entry (enabled entries being the ones checked) has an issue, and
/// otherwise it fails with the issue of the first entry that has one.
pub proof fn law_validation_checks_every_entry(providers: Seq<ProviderConfig>)
    ensures
        first_issue(providers) is None <==> forall|i: int| 0 <= i < providers.len() ==> (#[trigger] provider_issue(
            providers[i],
        )) is None,
        first_issue(providers) matches Some(m) ==> first_failing_entry(providers, m),
    decreases providers.len(),
{
    if providers.len() > 0 {
        let rest = providers.drop_first();
        law_validation_checks_every_entry(rest);
        assert forall|i: int| 0 <= i < rest.len() implies rest[i] == providers[i + 1] by {}
        match provider_issue(providers[0]) {
            Some(m) => {
                assert(first_failing_entry(providers, m));
            },
            None => {
                if forall|i: int| 0 <= i < rest.len() ==> (#[trigger] provider_issue(rest[i])) is None {
                    assert forall|i: int| 0 <= i < providers.len() implies (#[trigger] provider_issue(providers[i])) is None by {
                        if i > 0 {
                            assert(providers[i] == rest[i - 1]);
                        }
                    }
                } else {
                    let k = choose|i: int| 0 <= i < rest.len() && !((#[trigger] provider_issue(rest[i])) is None);
                    assert(providers[k + 1] == rest[k]);
                    assert(provider_issue(providers[k + 1]) is Some);
                }
                if let Some(m) = first_issue(rest) {
                    let i = choose|i: int|
                        0 <= i < rest.len() && #[trigger] provider_issue(rest[i]) == Some(m) && forall|j: int|
                            0 <= j < i ==> (#[trigger] provider_issue(rest[j])) is None;
                    assert(providers[i + 1] == rest[i]);
                    assert forall|j: int| 0 <= j < i + 1 implies (#[trigger] provider_issue(providers[j])) is None by {
                        if j > 0 {
                            assert(providers[j] == rest[j - 1]);
                        }
                    }
                    assert(first_failing_entry(providers, m));
                }
            },
        }
    }
}

fn is_blank_option(o: &Option<String>) -> (r: bool)
    ensures
        r == blank_option(*o),
{
    match o {
        Some(s) => s.as_str().unicode_len() == 0,
        None => true,
    }
}

fn check_models(provider: &ProviderConfig) -> (r: Result<(), EngineError>)
    ensures
        first_unknown_capability(provider.models@) is None ==> r is Ok,
        first_unknown_capability(provider.models@) matches Some(m) ==> (r matches Err(
            EngineError::Config(e),
        ) && e@ == "provider '"@ + provider.name@ + "' model '"@ + m.name@
            + "' has unknown capability '"@ + m.capability@ + "'"@),
{
    let ghost models = provider.models@;
    let mut i: usize = 0;
    assert(models.skip(0) =~= models);
    while i < provider.models.len()
        invariant
            models == provider.models@,
            i <= models.len(),
            first_unknown_capability(models) == first_unknown_capability(models.skip(i as int)),
        decreases provider.models.len() - i,
    {
        let m = &provider.models[i];
        assert(models.skip(i as int).drop_first() =~= models.skip(i as int + 1));
        assert(models.skip(i as int)[0] == models[i as int]);
        if Capability::from_str_loose(m.capability.as_str()).is_none() {
            let a = concat("provider '", provider.name.as_str());
            let b = concat(a.as_str(), "' model '");
            let c = concat(b.as_str(), m.name.as_str());
            let d = concat(c.as_str(), "' has unknown capability '");
            let e = concat(d.as_str(), m.capability.as_str());
            return Err(EngineError::Config(concat(e.as_str(), "'")));
        }
        i = i + 1;
    }
    assert(models.skip(i as int).len() == 0);
    Ok(())
}

fn check_provider(provider: &ProviderConfig) -> (r: Result<(), EngineError>)
    ensures
        provider_issue(*provider) is None ==> r is Ok,
        provider_issue(*provider) matches Some(m) ==> (r matches Err(EngineError::Config(e)) && e@
            == m),
{
    if !provider.enabled {
        return Ok(());
    }
    match provider.provider_kind() {
        Err(e) => {
            return Err(e);
        },
        Ok(_) => {},
    }
    let k = provider.kind.as_str();
    if str_eq(k, "openai_compatible") && is_blank_option(&provider.api_key) {
        let a = concat("provider '", provider.name.as_str());
        return Err(EngineError::Config(concat(a.as_str(), "' requires a non-empty api_key")));
    }
    if str_eq(k, "local_tts") {
        if is_blank_option(&provider.command) {
            let a = concat("provider '", provider.name.as_str());
            return Err(
                EngineError::Config(concat(a.as_str(), "' (local_tts) requires a non-empty command")),
            );
        }
        if provider.models.len() == 0 {
            let a = concat("provider '", provider.name.as_str());
            return Err(
                EngineError::Config(concat(a.as_str(), "' (local_tts) must declare at least one model")),
            );
        }
    }
    check_models(provider)
}

/// Check every enabled provider entry in order: its kind must be known, an
/// `openai_compatible` one needs an API key, a `local_tts` one a command and a
/// model, and every model a known capability. The first problem is returned.
pub fn validate_providers(providers: &[ProviderConfig]) -> (r: Result<(), EngineError>)
    ensures
        first_issue(providers@) is None ==> r is Ok,
        first_issue(providers@) matches Some(m) ==> (r matches Err(EngineError::Config(e)) && e@ == m),
        r is Ok <==> forall|i: int| 0 <= i < providers@.len() ==> (#[trigger] provider_issue(providers@[i])) is None,
        r matches Err(EngineError::Config(e)) ==> first_failing_entry(providers@, e@),
{
    proof {
        law_validation_checks_every_entry(providers@);
    }
    let ghost ps = providers@;
    let mut i: usize = 0;
    assert(ps.skip(0) =~= ps);
    while i < providers.len()
        invariant
            ps == providers@,
            i <= ps.len(),
            first_issue(ps) == first_issue(ps.skip(i as int)),
        decreases providers.len() - i,
    {
        assert(ps.skip(i as int).drop_first() =~= ps.skip(i as int + 1));
        assert(ps.skip(i as int)[0] == ps[i as int]);
        match check_provider(&providers[i]) {
            Err(e) => {
                proof {
                    law_validation_checks_every_entry(ps);
                }
                return Err(e);
            },
            Ok(()) => {},
        }
        i = i + 1;
    }
    assert(ps.skip(i as int).len() == 0);
    Ok(())
}

/// What registering one provider entry gives: nothing for a disabled entry;
/// its name, kind and priority; or the message of the problem that stops the
/// engine from starting (an unknown kind, a `local_tts` entry without a
/// command, a kind the engine cannot build).
pub open spec fn plan_entry(p: ProviderConfig) -> Option<Result<(Seq<char>, ProviderKind, u8), Seq<char>>> {
    if !p.enabled {
        None
    } else {
        match kind_named(p.kind@) {
            None => Some(Err(unknown_kind_message(p.kind@, p.name@))),
            Some(k) => match k {
                ProviderKind::Ollama | ProviderKind::OpenAiCompatible => Some(Ok((p.name@, k, p.priority))),
                ProviderKind::LocalTts => if p.command is None {
                    Some(Err("provider '"@ + p.name@ + "' (local_tts) requires a command"@))
                } else {
                    Some(Ok((p.name@, k, p.priority)))
                },
                _ => Some(Err("provider '"@ + p.name@ + "' uses unsupported provider kind"@)),
            },
        }
    }
}

/// The providers an engine registers, in configuration order, or the
/// message of the first entry that stops it.
pub open spec fn enabled_plan(ps: Seq<ProviderConfig>) -> Result<Seq<(Seq<char>, ProviderKind, u8)>, Seq<char>>
    decreases ps.len(),
{
    if ps.len() == 0 {
        Ok(Seq::empty())
    } else {
        match enabled_plan(ps.drop_last()) {
            Err(m) => Err(m),
            Ok(v) => match plan_entry(ps.last()) {
                None => Ok(v),
                Some(Ok(e)) => Ok(v.push(e)),
                Some(Err(m)) => Err(m),
            },
        }
    }
}

/// A registration plan by its views.
pub open spec fn plan_views(v: Seq<(String, ProviderKind, u8)>) -> Seq<(Seq<char>, ProviderKind, u8)> {
    v.map_values(|e: (String, ProviderKind, u8)| (e.0@, e.1, e.2))
}

/// The registration of one enabled entry (see [`plan_entry`]).
fn plan_one(p: &ProviderConfig) -> (r: Result<(String, ProviderKind, u8), EngineError>)
    requires
        p.enabled,
    ensures
        plan_entry(*p) matches Some(Ok(e)) ==> (r matches Ok(x) && (x.0@, x.1, x.2) == e),
        plan_entry(*p) matches Some(Err(m)) ==> (r matches Err(EngineError::Config(x)) && x@ == m),
{
    let kind = match p.provider_kind() {
        Ok(k) => k,
        Err(e) => {
            return Err(e);
        },
    };
    match kind {
        ProviderKind::Ollama | ProviderKind::OpenAiCompatible => Ok((p.name.clone(), kind, p.priority)),
        ProviderKind::LocalTts => {
            if p.command.is_none() {
                let a = concat("provider '", p.name.as_str());
                Err(EngineError::Config(concat(a.as_str(), "' (local_tts) requires a command")))
            } else {
                Ok((p.name.clone(), kind, p.priority))
            }
        },
        _ => {
            let a = concat("provider '", p.name.as_str());
            Err(EngineError::Config(concat(a.as_str(), "' uses unsupported provider kind")))
        },
    }
}

/// The providers an engine starts with: each enabled entry, in order, by
/// name, kind and priority; disabled entries are skipped. The first entry
/// with an unknown kind, a `local_tts` entry without a command, or a kind
/// the engine cannot build stops the start with a configuration error.
pub fn provider_plan(providers: &[ProviderConfig]) -> (r: Result<Vec<(String, ProviderKind, u8)>, EngineError>)
    ensures
        r is Ok <==> enabled_plan(providers@) is Ok,
        r matches Ok(v) ==> enabled_plan(providers@) == Ok::<Seq<(Seq<char>, ProviderKind, u8)>, Seq<char>>(
            plan_views(v@),
        ),
        enabled_plan(providers@) matches Err(m) ==> (r matches Err(EngineError::Config(x)) && x@ == m),
{
    let ghost ps = providers@;
    let mut out: Vec<(String, ProviderKind, u8)> = Vec::new();
    let mut i: usize = 0;
    assert(ps.take(0) =~= Seq::<ProviderConfig>::empty());
    assert(plan_views(out@) =~= Seq::<(Seq<char>, ProviderKind, u8)>::empty());
    while i < providers.len()
        invariant
            ps == providers@,
            i <= ps.len(),
            enabled_plan(ps.take(i as int)) == Ok::<Seq<(Seq<char>, ProviderKind, u8)>, Seq<char>>(
                plan_views(out@),
            ),
        decreases providers.len() - i,
    {
        assert(ps.take(i as int + 1).drop_last() =~= ps.take(i as int));
        assert(ps.take(i as int + 1).last() == ps[i as int]);
        if providers[i].enabled {
            match plan_one(&providers[i]) {
                Ok(e) => {
                    let ghost before = out@;
                    out.push(e);
                    assert(plan_views(out@) =~= plan_views(before).push((e.0@, e.1, e.2)));
                },
                Err(err) => {
                    proof {
                        lemma_plan_err_sticks(ps, i as int + 1);
                    }
                    return Err(err);
                },
            }
        }
        i = i + 1;
    }
    assert(ps.take(i as int) =~= ps);
    Ok(out)
}

proof fn lemma_plan_err_sticks(ps: Seq<ProviderConfig>, n: int)
    requires
        0 <= n <= ps.len(),
        enabled_plan(ps.take(n)) is Err,
    ensures
        enabled_plan(ps) == enabled_plan(ps.take(n)),
    decreases ps.len() - n,
{
    if n < ps.len() {
        assert(ps.take(n + 1).drop_last() =~= ps.take(n));
        lemma_plan_err_sticks(ps, n + 1);
    } else {
        assert(ps.take(n) =~= ps);
    }
}

/// The name of the environment variable `s` refers to when it has the form
/// `${NAME}`.
pub open spec fn env_reference(s: Seq<char>) -> Option<Seq<char>> {
    if s.len() >= 3 && has_prefix(s, "${"@) && s.last() == '}' {
        Some(s.subrange(2, s.len() - 1))
    } else {
        None
    }
}

/// The variable an API key refers to, when it has the form `${NAME}`.
pub fn env_var_name(s: &str) -> (r: Option<String>)
    ensures
        r matches Some(v) ==> env_reference(s@) == Some(v@),
        r is None ==> env_reference(s@) is None,
{
    proof {
        reveal_strlit("${");
    }
    let n = s.unicode_len();
    if n >= 3 && starts_with(s, "${") && s.get_char(n - 1) == '}' {
        Some(substring(s, 2, n - 1))
    } else {
        None
    }
}

/// An API key with a `${NAME}` reference replaced by `value`, the variable's
/// value if it is set. An unset variable is a configuration error.
pub fn resolve_env_value(s: &str, value: Option<String>) -> (r: Result<String, EngineError>)
    ensures
        env_reference(s@) is None ==> (r matches Ok(v) && v@ == s@),
        env_reference(s@) matches Some(name) ==> (match value {
            Some(v) => r matches Ok(x) && x@ == v@,
            None => r matches Err(EngineError::Config(m)) && m@ == "environment variable '"@ + name
                + "' is not set"@,
        }),
{
    match env_var_name(s) {
        None => Ok(owned(s)),
        Some(name) => match value {
            Some(v) => Ok(v),
            None => {
                let a = concat("environment variable '", name.as_str());
                Err(EngineError::Config(concat(a.as_str(), "' is not set")))
            },
        },
    }
}

/// A model definition as contracts speak of it.
pub struct ModelDefView {
    pub name: Seq<char>,
    pub capability: Seq<char>,
    pub context_window: Option<u32>,
    pub memory_mb: Option<u64>,
    pub reasoning_tier: Option<Seq<char>>,
}

/// A provider entry as contracts speak of it.
pub struct ProviderView {
    pub name: Seq<char>,
    pub kind: Seq<char>,
    pub base_url: Seq<char>,
    pub api_key: Option<Seq<char>>,
    pub priority: u8,
    pub cost_tier: Seq<char>,
    pub models: Seq<ModelDefView>,
    pub enabled: bool,
    pub command: Option<Seq<char>>,
    pub args: Seq<Seq<char>>,
    pub output_format: Option<Seq<char>>,
    pub output_dir: Option<Seq<char>>,
}

/// The characters of an optional string.
pub open spec fn opt_view(o: Option<String>) -> Option<Seq<char>> {
    match o {
        Some(s) => Some(s@),
        None => None,
    }
}

impl View for ModelDef {
    type V = ModelDefView;

    open spec fn view(&self) -> ModelDefView {
        ModelDefView {
            name: self.name@,
            capability: self.capability@,
            context_window: self.context_window,
            memory_mb: self.memory_mb,
            reasoning_tier: opt_view(self.reasoning_tier),
        }
    }
}

impl View for ProviderConfig {
    type V = ProviderView;

    open spec fn view(&self) -> ProviderView {
        ProviderView {
            name: self.name@,
            kind: self.kind@,
            base_url: self.base_url@,
            api_key: opt_view(self.api_key),
            priority: self.priority,
            cost_tier: self.cost_tier@,
            models: self.models@.map_values(|m: ModelDef| m@),
            enabled: self.enabled,
            command: opt_view(self.command),
            args: self.args@.map_values(|a: String| a@),
            output_format: opt_view(self.output_format),
            output_dir: opt_view(self.output_dir),
        }
    }
}

/// A model definition with no memory estimate.
pub open spec fn model_view(name: Seq<char>, capability: Seq<char>, context_window: Option<u32>) -> ModelDefView {
    ModelDefView { name, capability, context_window, memory_mb: None, reasoning_tier: None }
}

/// An enabled provider entry with no process-adapter settings.
pub open spec fn provider_view(
    name: Seq<char>,
    kind: Seq<char>,
    base_url: Seq<char>,
    api_key: Option<Seq<char>>,
    priority: u8,
    cost_tier: Seq<char>,
    models: Seq<ModelDefView>,
) -> ProviderView {
    ProviderView {
        name,
        kind,
        base_url,
        api_key,
        priority,
        cost_tier,
        models,
        enabled: true,
        command: None,
        args: Seq::empty(),
        output_format: None,
        output_dir: None,
    }
}

/// The entry for a cloud vendor reached with `key`, if the key is present.
pub open spec fn cloud_entry(
    key: Option<String>,
    name: Seq<char>,
    base_url: Seq<char>,
    priority: u8,
    cost_tier: Seq<char>,
    models: Seq<ModelDefView>,
) -> Seq<ProviderView> {
    match key {
        Some(k) => seq![
            provider_view(name, "openai_compatible"@, base_url, Some(k@), priority, cost_tier, models),
        ],
        None => Seq::empty(),
    }
}

/// The providers detected from the vendors' API keys: the local Ollama
/// always, then each cloud vendor whose key is present, in a fixed order.
pub open spec fn detected(
    openai: Option<String>,
    deepseek: Option<String>,
    dashscope: Option<String>,
    nvidia: Option<String>,
    perplexity: Option<String>,
    zai: Option<String>,
) -> Seq<ProviderView> {
    seq![provider_view("ollama"@, "ollama"@, "http://127.0.0.1:11434"@, None, 1, "free"@, Seq::empty())]
        + cloud_entry(
        openai,
        "openai"@,
        "https://api.openai.com/v1"@,
        10,
        "high"@,
        seq![
            model_view("gpt-4o"@, "chat"@, Some(128000)),
            model_view("gpt-4o-mini"@, "chat"@, Some(128000)),
            model_view("tts-1"@, "tts"@, None),
            model_view("tts-1-hd"@, "tts"@, None),
            model_view("whisper-1"@, "asr"@, None),
        ],
    ) + cloud_entry(
        deepseek,
        "deepseek"@,
        "https://api.deepseek.com"@,
        8,
        "low"@,
        seq![
            model_view("deepseek-chat"@, "chat"@, Some(64000)),
            model_view("deepseek-reasoner"@, "chat"@, Some(64000)),
        ],
    ) + cloud_entry(
        dashscope,
        "dashscope"@,
        "https://dashscope.aliyuncs.com/compatible-mode/v1"@,
        8,
        "medium"@,
        seq![
            model_view("qwen-plus"@, "chat"@, Some(131072)),
            model_view("qwen-turbo"@, "chat"@, Some(131072)),
            model_view("qwen-max"@, "chat"@, Some(32768)),
        ],
    ) + cloud_entry(
        nvidia,
        "nvidia"@,
        "https://integrate.api.nvidia.com/v1"@,
        8,
        "medium"@,
        seq![model_view("meta/llama-3.1-8b-instruct"@, "chat"@, Some(128000))],
    ) + cloud_entry(
        perplexity,
        "perplexity"@,
        "https://api.perplexity.ai"@,
        9,
        "medium"@,
        seq![model_view("sonar"@, "chat"@, Some(128000))],
    ) + cloud_entry(
        zai,
        "zhipu"@,
        "https://open.bigmodel.cn/api/paas/v4"@,
        8,
        "low"@,
        seq![model_view("glm-4-flash"@, "chat"@, Some(128000))],
    )
}

fn model(name: &str, capability: &str, context_window: Option<u32>) -> (r: ModelDef)
    ensures
        r@ == model_view(name@, capability@, context_window),
{
    ModelDef { name: owned(name), capability: owned(capability), context_window, memory_mb: None, reasoning_tier: None }
}

fn provider(
    name: &str,
    kind: &str,
    base_url: &str,
    api_key: Option<String>,
    priority: u8,
    cost_tier: &str,
    models: Vec<ModelDef>,
) -> (r: ProviderConfig)
    ensures
        r@ == provider_view(
            name@,
            kind@,
            base_url@,
            opt_view(api_key),
            priority,
            cost_tier@,
            models@.map_values(|m: ModelDef| m@),
        ),
{
    let r = ProviderConfig {
        name: owned(name),
        kind: owned(kind),
        base_url: owned(base_url),
        api_key,
        priority,
        cost_tier: owned(cost_tier),
        models,
        enabled: true,
        command: None,
        args: Vec::new(),
        output_format: None,
        output_dir: None,
    };
    assert(r@.args =~= Seq::<Seq<char>>::empty());
    r
}

/// Append the entry for a cloud vendor when its key is present.
fn push_cloud(
    out: &mut Vec<ProviderConfig>,
    key: Option<String>,
    name: &str,
    base_url: &str,
    priority: u8,
    cost_tier: &str,
    models: Vec<ModelDef>,
)
    ensures
        final(out)@.map_values(|p: ProviderConfig| p@) == old(out)@.map_values(|p: ProviderConfig| p@)
            + cloud_entry(key, name@, base_url@, priority, cost_tier@, models@.map_values(|m: ModelDef| m@)),
{
    match key {
        Some(k) => {
            let ghost kv = k@;
            let p = provider(name, "openai_compatible", base_url, Some(k), priority, cost_tier, models);
            let ghost before = out@;
            out.push(p);
            assert(out@.map_values(|p: ProviderConfig| p@) =~= before.map_values(|p: ProviderConfig| p@)
                + seq![p@]);
        },
        None => {
            assert(old(out)@.map_values(|p: ProviderConfig| p@) + Seq::<ProviderView>::empty()
                =~= out@.map_values(|p: ProviderConfig| p@));
        },
    }
}

/// The providers to use when no configuration file exists: the local Ollama
/// always, then each cloud vendor whose API key is given (OpenAI, DeepSeek,
/// DashScope, NVIDIA, Perplexity, Zhipu), with their standard models.
pub fn detected_providers(
    openai: Option<String>,
    deepseek: Option<String>,
    dashscope: Option<String>,
    nvidia: Option<String>,
    perplexity: Option<String>,
    zai: Option<String>,
) -> (r: Vec<ProviderConfig>)
    ensures
        r@.map_values(|p: ProviderConfig| p@) == detected(openai, deepseek, dashscope, nvidia, perplexity, zai),
{
    let mut out: Vec<ProviderConfig> = Vec::new();
    let no_models: Vec<ModelDef> = Vec::new();
    assert(no_models@.map_values(|m: ModelDef| m@) =~= Seq::<ModelDefView>::empty());
    out.push(provider("ollama", "ollama", "http://127.0.0.1:11434", None, 1, "free", no_models));
    assert(out@.map_values(|p: ProviderConfig| p@) =~= seq![
        provider_view("ollama"@, "ollama"@, "http://127.0.0.1:11434"@, None, 1, "free"@, Seq::empty()),
    ]);
    let openai_models = vec![
        model("gpt-4o", "chat", Some(128000)),
        model("gpt-4o-mini", "chat", Some(128000)),
        model("tts-1", "tts", None),
        model("tts-1-hd", "tts", None),
        model("whisper-1", "asr", None),
    ];
    let ghost om = openai_models@.map_values(|m: ModelDef| m@);
    assert(om =~= seq![
        model_view("gpt-4o"@, "chat"@, Some(128000)),
        model_view("gpt-4o-mini"@, "chat"@, Some(128000)),
        model_view("tts-1"@, "tts"@, None),
        model_view("tts-1-hd"@, "tts"@, None),
        model_view("whisper-1"@, "asr"@, None),
    ]);
    push_cloud(&mut out, openai, "openai", "https://api.openai.com/v1", 10, "high", openai_models);
    let deepseek_models = vec![
        model("deepseek-chat", "chat", Some(64000)),
        model("deepseek-reasoner", "chat", Some(64000)),
    ];
    assert(deepseek_models@.map_values(|m: ModelDef| m@) =~= seq![
        model_view("deepseek-chat"@, "chat"@, Some(64000)),
        model_view("deepseek-reasoner"@, "chat"@, Some(64000)),
    ]);
    push_cloud(&mut out, deepseek, "deepseek", "https://api.deepseek.com", 8, "low", deepseek_models);
    let dashscope_models = vec![
        model("qwen-plus", "chat", Some(131072)),
        model("qwen-turbo", "chat", Some(131072)),
        model("qwen-max", "chat", Some(32768)),
    ];
    assert(dashscope_models@.map_values(|m: ModelDef| m@) =~= seq![
        model_view("qwen-plus"@, "chat"@, Some(131072)),
        model_view("qwen-turbo"@, "chat"@, Some(131072)),
        model_view("qwen-max"@, "chat"@, Some(32768)),
    ]);
    push_cloud(
        &mut out,
        dashscope,
        "dashscope",
        "https://dashscope.aliyuncs.com/compatible-mode/v1",
        8,
        "medium",
        dashscope_models,
    );
    let nvidia_models = vec![model("meta/llama-3.1-8b-instruct", "chat", Some(128000))];
    assert(nvidia_models@.map_values(|m: ModelDef| m@) =~= seq![
        model_view("meta/llama-3.1-8b-instruct"@, "chat"@, Some(128000)),
    ]);
    push_cloud(&mut out, nvidia, "nvidia", "https://integrate.api.nvidia.com/v1", 8, "medium", nvidia_models);
    let perplexity_models = vec![model("sonar", "chat", Some(128000))];
    assert(perplexity_models@.map_values(|m: ModelDef| m@) =~= seq![
        model_view("sonar"@, "chat"@, Some(128000)),
    ]);
    push_cloud(&mut out, perplexity, "perplexity", "https://api.perplexity.ai", 9, "medium", perplexity_models);
    let zai_models = vec![model("glm-4-flash", "chat", Some(128000))];
    assert(zai_models@.map_values(|m: ModelDef| m@) =~= seq![
        model_view("glm-4-flash"@, "chat"@, Some(128000)),
    ]);
    push_cloud(&mut out, zai, "zhipu", "https://open.bigmodel.cn/api/paas/v4", 8, "low", zai_models);
    out
}

} // verus!
