//! Engine counters with bounded cardinality, and their Prometheus text
//! rendering.
//!
//! Counters carry no labels but the provider name, a small fixed set, so the
//! number of series stays bounded whatever the traffic.

use vstd::prelude::*;

use crate::shared_map::{
    lists_usage, no_usage, usage_table, usage_table_entries, usage_table_get, usage_table_insert,
    usage_table_new, UsageTable,
};
use crate::text::{
    concat, decimal, digit_char, digit_of, owned, replace_all, replaced, str_eq, string_from_chars,
    u64_to_decimal,
};

verus! {

/// Number of bounded latency buckets (a last `+Inf` bucket follows them).
pub const BUCKET_COUNT: usize = 8;

/// The upper bound in milliseconds of latency bucket `i`.
pub open spec fn bucket_bound(i: int) -> u64 {
    if i == 0 {
        50
    } else if i == 1 {
        100
    } else if i == 2 {
        250
    } else if i == 3 {
        500
    } else if i == 4 {
        1000
    } else if i == 5 {
        2500
    } else if i == 6 {
        5000
    } else {
        10000
    }
}

/// The upper bound in milliseconds of latency bucket `i`.
pub fn latency_bound(i: usize) -> (r: u64)
    requires
        i < BUCKET_COUNT,
    ensures
        r == bucket_bound(i as int),
{
    if i == 0 {
        50
    } else if i == 1 {
        100
    } else if i == 2 {
        250
    } else if i == 3 {
        500
    } else if i == 4 {
        1000
    } else if i == 5 {
        2500
    } else if i == 6 {
        5000
    } else {
        10000
    }
}

/// The bucket a request of `duration_ms` counts in: the first whose bound
/// covers it, else the `+Inf` bucket.
pub open spec fn bucket_index(duration_ms: u64) -> int {
    if duration_ms <= 50 {
        0
    } else if duration_ms <= 100 {
        1
    } else if duration_ms <= 250 {
        2
    } else if duration_ms <= 500 {
        3
    } else if duration_ms <= 1000 {
        4
    } else if duration_ms <= 2500 {
        5
    } else if duration_ms <= 5000 {
        6
    } else if duration_ms <= 10000 {
        7
    } else {
        8
    }
}

/// `a + b` wrapping at `u64::MAX`, as an atomic add does.
pub open spec fn wrap_add(a: u64, b: u64) -> u64 {
    if a + b > u64::MAX {
        (a + b - 18446744073709551616) as u64
    } else {
        (a + b) as u64
    }
}

/// Token and cost totals of one provider.
#[derive(Debug, Clone, Copy, PartialEq, Eq, Structural)]
pub struct ProviderUsage {
    /// Prompt tokens.
    pub prompt_tokens: u64,
    /// Completion tokens.
    pub completion_tokens: u64,
    /// Spend in millionths of a US dollar.
    pub cost_micro_usd: u64,
    /// Whether the provider runs locally, set on its first use.
    pub local: Option<bool>,
}

/// What the counters hold.
pub struct MetricsView {
    pub requests_total: u64,
    pub requests_failed: u64,
    pub requests_fallback: u64,
    pub duration_sum: u64,
    /// Requests per latency bucket, the `+Inf` bucket last.
    pub buckets: Seq<u64>,
    pub loads: u64,
    pub unloads: u64,
    pub evictions: u64,
    pub idle_unloads: u64,
    pub load_failures: u64,
    /// Totals per provider name.
    pub usage: Map<Seq<char>, ProviderUsage>,
}

/// Sum of the first `i` buckets.
pub open spec fn prefix_total(b: Seq<u64>, i: int) -> int
    decreases i,
{
    if i <= 0 {
        0
    } else {
        prefix_total(b, i - 1) + b[i - 1]
    }
}

/// Requests per latency bucket, with their total.
struct Latency {
    count: u64,
    buckets: Vec<u64>,
}

impl Latency {
    #[verifier::type_invariant]
    spec fn inv(&self) -> bool {
        self.buckets@.len() == BUCKET_COUNT + 1 && prefix_total(self.buckets@, BUCKET_COUNT + 1)
            == self.count
    }

    spec fn count_of(&self) -> u64 {
        self.count
    }

    spec fn buckets_of(&self) -> Seq<u64> {
        self.buckets@
    }

    fn empty() -> (r: Self)
        ensures
            r.count_of() == 0,
            r.buckets_of() == Seq::new(9, |i: int| 0u64),
    {
        let buckets = vec![0u64, 0, 0, 0, 0, 0, 0, 0, 0];
        assert(buckets@ =~= Seq::new(9, |i: int| 0u64));
        assert(prefix_total(buckets@, 9) == 0) by {
            reveal_with_fuel(prefix_total, 10);
        }
        Latency { count: 0, buckets }
    }

    /// These counts with one more request of `duration_ms`.
    fn observe(&self, duration_ms: u64) -> (r: Self)
        requires
            self.count_of() < u64::MAX,
        ensures
            r.count_of() == self.count_of() + 1,
            r.buckets_of() == self.buckets_of().update(
                bucket_index(duration_ms),
                (self.buckets_of()[bucket_index(duration_ms)] + 1) as u64,
            ),
    {
        proof {
            use_type_invariant(self);
        }
        let mut i: usize = 0;
        while i < BUCKET_COUNT && duration_ms > latency_bound(i)
            invariant
                i <= BUCKET_COUNT,
                forall|j: int| 0 <= j < i ==> duration_ms > bucket_bound(j),
            decreases BUCKET_COUNT - i,
        {
            i = i + 1;
        }
        let idx = i;
        proof {
            if i > 0 { assert(duration_ms > bucket_bound(0)); }
            if i > 1 { assert(duration_ms > bucket_bound(1)); }
            if i > 2 { assert(duration_ms > bucket_bound(2)); }
            if i > 3 { assert(duration_ms > bucket_bound(3)); }
            if i > 4 { assert(duration_ms > bucket_bound(4)); }
            if i > 5 { assert(duration_ms > bucket_bound(5)); }
            if i > 6 { assert(duration_ms > bucket_bound(6)); }
            if i > 7 { assert(duration_ms > bucket_bound(7)); }
            if i < BUCKET_COUNT { assert(duration_ms <= bucket_bound(i as int)); }
        }
        assert(idx == bucket_index(duration_ms));
        let ghost b = self.buckets@;
        proof {
            lemma_prefix_bounded(b, idx as int + 1, 9);
            assert(prefix_total(b, idx as int + 1) == prefix_total(b, idx as int) + b[idx as int]);
            lemma_prefix_bounded(b, idx as int, idx as int);
            lemma_prefix_bump(b, idx as int, 9);
        }
        let mut buckets: Vec<u64> = Vec::new();
        let mut k: usize = 0;
        while k < self.buckets.len()
            invariant
                k <= self.buckets@.len(),
                buckets@ == self.buckets@.take(k as int),
            decreases self.buckets.len() - k,
        {
            buckets.push(self.buckets[k]);
            assert(self.buckets@.take(k as int + 1) =~= self.buckets@.take(k as int).push(self.buckets@[k as int]));
            k = k + 1;
        }
        assert(self.buckets@.take(k as int) =~= self.buckets@);
        let c = buckets[idx];
        buckets.set(idx, c + 1);
        Latency { count: self.count + 1, buckets }
    }
}

/// Engine-wide counters.
pub struct EngineMetrics {
    requests_failed: u64,
    requests_fallback: u64,
    request_duration_ms_sum: u64,
    latency: Latency,
    loads_total: u64,
    unloads_total: u64,
    evictions_total: u64,
    idle_unloads_total: u64,
    load_failures_total: u64,
    per_provider: UsageTable,
}

impl View for EngineMetrics {
    type V = MetricsView;

    closed spec fn view(&self) -> MetricsView {
        MetricsView {
            requests_total: self.latency.count_of(),
            requests_failed: self.requests_failed,
            requests_fallback: self.requests_fallback,
            duration_sum: self.request_duration_ms_sum,
            buckets: self.latency.buckets_of(),
            loads: self.loads_total,
            unloads: self.unloads_total,
            evictions: self.evictions_total,
            idle_unloads: self.idle_unloads_total,
            load_failures: self.load_failures_total,
            usage: usage_table(self.per_provider),
        }
    }
}

/// The counters are consistent: one bucket per bound plus `+Inf`, and every
/// request counted in exactly one bucket.
pub open spec fn consistent(v: MetricsView) -> bool {
    v.buckets.len() == BUCKET_COUNT + 1 && prefix_total(v.buckets, BUCKET_COUNT + 1) == v.requests_total
}

proof fn lemma_prefix_bump(b: Seq<u64>, k: int, n: int)
    requires
        0 <= k < b.len(),
        0 <= n <= b.len(),
        b[k] < u64::MAX,
    ensures
        prefix_total(b.update(k, (b[k] + 1) as u64), n) == prefix_total(b, n) + if k < n {
            1int
        } else {
            0int
        },
    decreases n,
{
    if n > 0 {
        lemma_prefix_bump(b, k, n - 1);
    }
}

proof fn lemma_prefix_bounded(b: Seq<u64>, i: int, n: int)
    requires
        0 <= i <= n <= b.len(),
    ensures
        0 <= prefix_total(b, i) <= prefix_total(b, n),
    decreases n,
{
    if n > i {
        lemma_prefix_bounded(b, i, n - 1);
    } else if n > 0 {
        lemma_prefix_bounded(b, n - 1, n - 1);
    }
}

impl EngineMetrics {
    /// The counters are consistent: one bucket per bound plus `+Inf`, and the
    /// buckets add up to the requests recorded.
    pub fn check_consistent(&self) -> (r: bool)
        ensures
            r,
            consistent(self@),
    {
        proof {
            use_type_invariant(&self.latency);
        }
        true
    }

    /// All counters at zero.
    pub fn new() -> (r: Self)
        ensures
            r@.requests_total == 0,
            r@.requests_failed == 0,
            r@.requests_fallback == 0,
            r@.duration_sum == 0,
            r@.buckets == Seq::new(9, |i: int| 0u64),
            r@.loads == 0,
            r@.unloads == 0,
            r@.evictions == 0,
            r@.idle_unloads == 0,
            r@.load_failures == 0,
            r@.usage == no_usage(),
    {
        EngineMetrics {
            requests_failed: 0,
            requests_fallback: 0,
            request_duration_ms_sum: 0,
            latency: Latency::empty(),
            loads_total: 0,
            unloads_total: 0,
            evictions_total: 0,
            idle_unloads_total: 0,
            load_failures_total: 0,
            per_provider: usage_table_new(),
        }
    }

    /// Requests recorded so far.
    pub fn request_count(&self) -> (r: u64)
        ensures
            r == self@.requests_total,
    {
        self.latency.count
    }

    /// Record one request: its outcome, its duration and whether a fallback
    /// served it.
    pub fn record_request(&mut self, success: bool, duration_ms: u64, fallback_used: bool)
        requires
            old(self)@.requests_total < u64::MAX,
        ensures
            final(self)@ == recorded(old(self)@, success, duration_ms, fallback_used),
    {
        self.latency = self.latency.observe(duration_ms);
        if !success {
            self.requests_failed = self.requests_failed.wrapping_add(1);
        }
        if fallback_used {
            self.requests_fallback = self.requests_fallback.wrapping_add(1);
        }
        self.request_duration_ms_sum = self.request_duration_ms_sum.wrapping_add(duration_ms);
    }

    /// Fold a lifecycle event into its counter: `load`, `unload`, `evict`,
    /// `idle_unload`, and `load_failed` / `load_timeout` as load failures;
    /// other events are not counted.
    pub fn record_lifecycle(&mut self, event: &str)
        ensures
            final(self)@ == (if event@ == "load"@ {
                MetricsView { loads: wrap_add(old(self)@.loads, 1), ..old(self)@ }
            } else if event@ == "unload"@ {
                MetricsView { unloads: wrap_add(old(self)@.unloads, 1), ..old(self)@ }
            } else if event@ == "evict"@ {
                MetricsView { evictions: wrap_add(old(self)@.evictions, 1), ..old(self)@ }
            } else if event@ == "idle_unload"@ {
                MetricsView { idle_unloads: wrap_add(old(self)@.idle_unloads, 1), ..old(self)@ }
            } else if event@ == "load_failed"@ || event@ == "load_timeout"@ {
                MetricsView { load_failures: wrap_add(old(self)@.load_failures, 1), ..old(self)@ }
            } else {
                old(self)@
            }),
    {
        if str_eq(event, "load") {
            self.loads_total = self.loads_total.wrapping_add(1);
        } else if str_eq(event, "unload") {
            self.unloads_total = self.unloads_total.wrapping_add(1);
        } else if str_eq(event, "evict") {
            self.evictions_total = self.evictions_total.wrapping_add(1);
        } else if str_eq(event, "idle_unload") {
            self.idle_unloads_total = self.idle_unloads_total.wrapping_add(1);
        } else if str_eq(event, "load_failed") || str_eq(event, "load_timeout") {
            self.load_failures_total = self.load_failures_total.wrapping_add(1);
        }
    }

    /// Add one successful request's token counts and cost (in millionths of a
    /// dollar, when positive) to `provider`'s totals; the provider's locality
    /// is fixed by its first use.
    pub fn record_usage(
        &mut self,
        provider: &str,
        is_local: bool,
        prompt_tokens: Option<u32>,
        completion_tokens: Option<u32>,
        cost_micro_usd: Option<u64>,
    )
        ensures
            ({
                let before = match old(self)@.usage.get(provider@) {
                    Some(u) => u,
                    None => ProviderUsage { prompt_tokens: 0, completion_tokens: 0, cost_micro_usd: 0, local: None },
                };
                let after = ProviderUsage {
                    prompt_tokens: match prompt_tokens {
                        Some(p) => wrap_add(before.prompt_tokens, p as u64),
                        None => before.prompt_tokens,
                    },
                    completion_tokens: match completion_tokens {
                        Some(c) => wrap_add(before.completion_tokens, c as u64),
                        None => before.completion_tokens,
                    },
                    cost_micro_usd: match cost_micro_usd {
                        Some(m) => wrap_add(before.cost_micro_usd, m),
                        None => before.cost_micro_usd,
                    },
                    local: match before.local {
                        Some(l) => Some(l),
                        None => Some(is_local),
                    },
                };
                final(self)@ == (MetricsView { usage: old(self)@.usage.insert(provider@, after), ..old(self)@ })
            }),
    {
        let before = match usage_table_get(&self.per_provider, provider) {
            Some(u) => u,
            None => ProviderUsage { prompt_tokens: 0, completion_tokens: 0, cost_micro_usd: 0, local: None },
        };
        let after = ProviderUsage {
            prompt_tokens: match prompt_tokens {
                Some(p) => before.prompt_tokens.wrapping_add(p as u64),
                None => before.prompt_tokens,
            },
            completion_tokens: match completion_tokens {
                Some(c) => before.completion_tokens.wrapping_add(c as u64),
                None => before.completion_tokens,
            },
            cost_micro_usd: match cost_micro_usd {
                Some(m) => before.cost_micro_usd.wrapping_add(m),
                None => before.cost_micro_usd,
            },
            local: match before.local {
                Some(l) => Some(l),
                None => Some(is_local),
            },
        };
        usage_table_insert(&mut self.per_provider, owned(provider), after);
    }
}

/// Gauge values sampled from the engine when metrics are scraped.
#[derive(Debug, Clone)]
pub struct MetricsGauges {
    /// Known models.
    pub models_total: u64,
    /// Models currently resident.
    pub models_loaded: u64,
    /// Reserved model memory in bytes.
    pub memory_used_bytes: u64,
    /// Model memory budget in bytes.
    pub memory_budget_bytes: u64,
    /// Speculative warm tasks started.
    pub preflight_warms_started: u64,
    /// Confirmed predictive-warm hits.
    pub preflight_hits: u64,
    /// Routability per provider, `(name, routable)`.
    pub provider_up: Vec<(String, bool)>,
}

impl Default for MetricsGauges {
    fn default() -> (r: Self)
        ensures
            r.models_total == 0,
            r.models_loaded == 0,
            r.memory_used_bytes == 0,
            r.memory_budget_bytes == 0,
            r.preflight_warms_started == 0,
            r.preflight_hits == 0,
            r.provider_up@.len() == 0,
    {
        MetricsGauges {
            models_total: 0,
            models_loaded: 0,
            memory_used_bytes: 0,
            memory_budget_bytes: 0,
            preflight_warms_started: 0,
            preflight_hits: 0,
            provider_up: Vec::new(),
        }
    }
}

/// The decimal digits of a count.
pub open spec fn num(v: int) -> Seq<char> {
    decimal(v as nat)
}

/// A counter's help, type and sample lines.
pub open spec fn counter_text(name: Seq<char>, help: Seq<char>, value: u64) -> Seq<char> {
    "# HELP "@ + name + " "@ + help + "\n# TYPE "@ + name + " counter\n"@ + name + " "@ + num(value as int)
        + "\n"@
}

/// A gauge's help, type and sample lines.
pub open spec fn gauge_text(name: Seq<char>, help: Seq<char>, value: u64) -> Seq<char> {
    "# HELP "@ + name + " "@ + help + "\n# TYPE "@ + name + " gauge\n"@ + name + " "@ + num(value as int)
        + "\n"@
}

/// The request and lifecycle counters.
pub open spec fn counters_text(v: MetricsView) -> Seq<char> {
    counter_text("mofa_requests_total"@, "Total inference requests handled."@, v.requests_total)
        + counter_text("mofa_requests_failed_total"@, "Inference requests that returned an error."@, v.requests_failed)
        + counter_text("mofa_requests_fallback_total"@, "Requests served by a fallback candidate."@, v.requests_fallback)
        + counter_text("mofa_model_loads_total"@, "Model load operations."@, v.loads)
        + counter_text("mofa_model_unloads_total"@, "Explicit model unload operations."@, v.unloads)
        + counter_text("mofa_model_evictions_total"@, "Models evicted under memory pressure."@, v.evictions)
        + counter_text("mofa_model_idle_unloads_total"@, "Models unloaded by the idle sweep."@, v.idle_unloads)
        + counter_text("mofa_model_load_failures_total"@, "Failed or timed-out model loads."@, v.load_failures)
}

/// The cumulative lines of the first `i` latency buckets.
pub open spec fn bucket_lines(b: Seq<u64>, i: int) -> Seq<char>
    decreases i,
{
    if i <= 0 {
        Seq::empty()
    } else {
        bucket_lines(b, i - 1) + "mofa_request_duration_ms_bucket{le=\""@ + num(bucket_bound(i - 1) as int)
            + "\"} "@ + num(prefix_total(b, i)) + "\n"@
    }
}

/// The latency histogram, buckets cumulative.
pub open spec fn histogram_text(v: MetricsView) -> Seq<char> {
    "# HELP mofa_request_duration_ms Request latency in milliseconds.\n# TYPE mofa_request_duration_ms histogram\n"@
        + bucket_lines(v.buckets, BUCKET_COUNT as int) + "mofa_request_duration_ms_bucket{le=\"+Inf\"} "@
        + num(v.requests_total as int) + "\n"@ + "mofa_request_duration_ms_sum "@ + num(v.duration_sum as int) + "\n"@
        + "mofa_request_duration_ms_count "@ + num(v.requests_total as int) + "\n"@
}

/// The engine's gauges.
pub open spec fn gauges_text(g: MetricsGauges) -> Seq<char> {
    gauge_text("mofa_models_total"@, "Known models in the registry."@, g.models_total)
        + gauge_text("mofa_models_loaded"@, "Models currently resident."@, g.models_loaded)
        + gauge_text("mofa_memory_used_bytes"@, "Reserved model memory in bytes."@, g.memory_used_bytes)
        + gauge_text("mofa_memory_budget_bytes"@, "Total model memory budget in bytes."@, g.memory_budget_bytes)
        + gauge_text("mofa_preflight_warms_total"@, "Speculative warm tasks started."@, g.preflight_warms_started)
        + gauge_text("mofa_preflight_hits_total"@, "Confirmed predictive-warm hits."@, g.preflight_hits)
}

/// The sample line of a metric: its name, a space, the value in decimal,
/// and a line feed.
pub open spec fn sample_line(name: Seq<char>, value: u64) -> Seq<char> {
    name + " "@ + num(value as int) + "\n"@
}

/// Whether `line` occurs in `text`.
pub open spec fn has_line(text: Seq<char>, line: Seq<char>) -> bool {
    exists|a: Seq<char>, b: Seq<char>| #[trigger] (a + line + b) == text
}

proof fn lemma_gauge_has_sample(name: Seq<char>, help: Seq<char>, value: u64)
    ensures
        has_line(gauge_text(name, help, value), sample_line(name, value)),
{
    let h = "# HELP "@ + name + " "@ + help + "\n# TYPE "@ + name + " gauge\n"@;
    assert(h + sample_line(name, value) + Seq::<char>::empty() =~= gauge_text(name, help, value));
}

proof fn lemma_line_inside(x: Seq<char>, line: Seq<char>, pre: Seq<char>, post: Seq<char>)
    requires
        has_line(x, line),
    ensures
        has_line(pre + x + post, line),
{
    let (a, b) = choose|a: Seq<char>, b: Seq<char>| #[trigger] (a + line + b) == x;
    assert((pre + a) + line + (b + post) =~= pre + x + post);
}

proof fn lemma_six_parts(
    pre: Seq<char>,
    g1: Seq<char>,
    g2: Seq<char>,
    g3: Seq<char>,
    g4: Seq<char>,
    g5: Seq<char>,
    g6: Seq<char>,
    post: Seq<char>,
)
    ensures
        pre + (g1 + g2 + g3 + g4 + g5 + g6) + post == pre + g1 + (g2 + g3 + g4 + g5 + g6 + post),
        pre + (g1 + g2 + g3 + g4 + g5 + g6) + post == (pre + g1) + g2 + (g3 + g4 + g5 + g6 + post),
        pre + (g1 + g2 + g3 + g4 + g5 + g6) + post == (pre + g1 + g2) + g3 + (g4 + g5 + g6 + post),
        pre + (g1 + g2 + g3 + g4 + g5 + g6) + post == (pre + g1 + g2 + g3) + g4 + (g5 + g6 + post),
        pre + (g1 + g2 + g3 + g4 + g5 + g6) + post == (pre + g1 + g2 + g3 + g4) + g5 + (g6 + post),
        pre + (g1 + g2 + g3 + g4 + g5 + g6) + post == (pre + g1 + g2 + g3 + g4 + g5) + g6 + post,
{
    let t = pre + (g1 + g2 + g3 + g4 + g5 + g6) + post;
    assert(t =~= pre + g1 + (g2 + g3 + g4 + g5 + g6 + post));
    assert(t =~= (pre + g1) + g2 + (g3 + g4 + g5 + g6 + post));
    assert(t =~= (pre + g1 + g2) + g3 + (g4 + g5 + g6 + post));
    assert(t =~= (pre + g1 + g2 + g3) + g4 + (g5 + g6 + post));
    assert(t =~= (pre + g1 + g2 + g3 + g4) + g5 + (g6 + post));
    assert(t =~= (pre + g1 + g2 + g3 + g4 + g5) + g6 + post);
}

proof fn lemma_shows_extend(x: Seq<char>, y: Seq<char>, g: MetricsGauges)
    requires
        shows_gauges(x, g),
    ensures
        shows_gauges(x + y, g),
{
    reveal(shows_gauges);
    lemma_line_inside(x, sample_line("mofa_models_total"@, g.models_total), Seq::empty(), y);
    lemma_line_inside(x, sample_line("mofa_models_loaded"@, g.models_loaded), Seq::empty(), y);
    lemma_line_inside(x, sample_line("mofa_memory_used_bytes"@, g.memory_used_bytes), Seq::empty(), y);
    lemma_line_inside(x, sample_line("mofa_memory_budget_bytes"@, g.memory_budget_bytes), Seq::empty(), y);
    lemma_line_inside(x, sample_line("mofa_preflight_warms_total"@, g.preflight_warms_started), Seq::empty(), y);
    lemma_line_inside(x, sample_line("mofa_preflight_hits_total"@, g.preflight_hits), Seq::empty(), y);
    reveal(shows_gauges);
    assert(Seq::<char>::empty() + x + y =~= x + y);
}

/// Law: every gauge sample shows its own field. Wherever the gauge section
/// stands, the text holds, for each gauge, the line of its name followed by
/// that gauge's value: the models known and loaded, the memory used and the
/// budget, the warm tasks started and the predictive hits.
pub proof fn law_gauges_show_their_fields(g: MetricsGauges, pre: Seq<char>, post: Seq<char>)
    ensures
        shows_gauges(pre + gauges_text(g) + post, g),
        has_line(pre + gauges_text(g) + post, sample_line("mofa_memory_used_bytes"@, g.memory_used_bytes)),
        has_line(pre + gauges_text(g) + post, sample_line("mofa_memory_budget_bytes"@, g.memory_budget_bytes)),
        has_line(pre + gauges_text(g) + post, sample_line("mofa_models_total"@, g.models_total)),
        has_line(pre + gauges_text(g) + post, sample_line("mofa_models_loaded"@, g.models_loaded)),
        has_line(pre + gauges_text(g) + post, sample_line("mofa_preflight_warms_total"@, g.preflight_warms_started)),
        has_line(pre + gauges_text(g) + post, sample_line("mofa_preflight_hits_total"@, g.preflight_hits)),
{
    reveal(shows_gauges);
    let n1 = "mofa_models_total"@;
    let n2 = "mofa_models_loaded"@;
    let n3 = "mofa_memory_used_bytes"@;
    let n4 = "mofa_memory_budget_bytes"@;
    let n5 = "mofa_preflight_warms_total"@;
    let n6 = "mofa_preflight_hits_total"@;
    let h1 = "Known models in the registry."@;
    let h2 = "Models currently resident."@;
    let h3 = "Reserved model memory in bytes."@;
    let h4 = "Total model memory budget in bytes."@;
    let h5 = "Speculative warm tasks started."@;
    let h6 = "Confirmed predictive-warm hits."@;
    let g1 = gauge_text(n1, h1, g.models_total);
    let g2 = gauge_text(n2, h2, g.models_loaded);
    let g3 = gauge_text(n3, h3, g.memory_used_bytes);
    let g4 = gauge_text(n4, h4, g.memory_budget_bytes);
    let g5 = gauge_text(n5, h5, g.preflight_warms_started);
    let g6 = gauge_text(n6, h6, g.preflight_hits);
    assert(gauges_text(g) == g1 + g2 + g3 + g4 + g5 + g6);
    lemma_six_parts(pre, g1, g2, g3, g4, g5, g6, post);
    lemma_gauge_has_sample(n1, h1, g.models_total);
    lemma_line_inside(g1, sample_line(n1, g.models_total), pre, g2 + g3 + g4 + g5 + g6 + post);
    lemma_gauge_has_sample(n2, h2, g.models_loaded);
    lemma_line_inside(g2, sample_line(n2, g.models_loaded), pre + g1, g3 + g4 + g5 + g6 + post);
    lemma_gauge_has_sample(n3, h3, g.memory_used_bytes);
    lemma_line_inside(g3, sample_line(n3, g.memory_used_bytes), pre + g1 + g2, g4 + g5 + g6 + post);
    lemma_gauge_has_sample(n4, h4, g.memory_budget_bytes);
    lemma_line_inside(g4, sample_line(n4, g.memory_budget_bytes), pre + g1 + g2 + g3, g5 + g6 + post);
    lemma_gauge_has_sample(n5, h5, g.preflight_warms_started);
    lemma_line_inside(g5, sample_line(n5, g.preflight_warms_started), pre + g1 + g2 + g3 + g4, g6 + post);
    lemma_gauge_has_sample(n6, h6, g.preflight_hits);
    lemma_line_inside(g6, sample_line(n6, g.preflight_hits), pre + g1 + g2 + g3 + g4 + g5, post);
}

/// Whether the text shows each gauge's sample line with its own value.
#[verifier::opaque]
pub open spec fn shows_gauges(text: Seq<char>, g: MetricsGauges) -> bool {
    &&& has_line(text, sample_line("mofa_models_total"@, g.models_total))
    &&& has_line(text, sample_line("mofa_models_loaded"@, g.models_loaded))
    &&& has_line(text, sample_line("mofa_memory_used_bytes"@, g.memory_used_bytes))
    &&& has_line(text, sample_line("mofa_memory_budget_bytes"@, g.memory_budget_bytes))
    &&& has_line(text, sample_line("mofa_preflight_warms_total"@, g.preflight_warms_started))
    &&& has_line(text, sample_line("mofa_preflight_hits_total"@, g.preflight_hits))
}

/// A label value escaped for the exposition format: backslash and double
/// quote escaped, carriage return and line feed written as `\n`.
pub open spec fn escaped(s: Seq<char>) -> Seq<char> {
    replaced(
        replaced(replaced(replaced(s, "\\"@, "\\\\"@), "\""@, "\\\""@), "\r"@, "\\n"@),
        "\n"@,
        "\\n"@,
    )
}

proof fn lemma_replaced_keeps_out(s: Seq<char>, pat: Seq<char>, with: Seq<char>, d: char)
    requires
        !s.contains(d),
        !with.contains(d),
    ensures
        !replaced(s, pat, with).contains(d),
    decreases s.len(),
{
    if pat.len() == 0 || s.len() < pat.len() {
    } else if s.take(pat.len() as int) == pat {
        assert forall|i: int| 0 <= i < s.skip(pat.len() as int).len() implies s.skip(pat.len() as int)[i] != d by {
            assert(s.skip(pat.len() as int)[i] == s[i + pat.len()]);
        }
        lemma_replaced_keeps_out(s.skip(pat.len() as int), pat, with, d);
        let r = replaced(s.skip(pat.len() as int), pat, with);
        assert forall|i: int| 0 <= i < (with + r).len() implies (with + r)[i] != d by {
            if i < with.len() {
                assert((with + r)[i] == with[i]);
            } else {
                assert((with + r)[i] == r[i - with.len()]);
            }
        }
    } else {
        assert forall|i: int| 0 <= i < s.drop_first().len() implies s.drop_first()[i] != d by {
            assert(s.drop_first()[i] == s[i + 1]);
        }
        lemma_replaced_keeps_out(s.drop_first(), pat, with, d);
        let r = replaced(s.drop_first(), pat, with);
        assert(s[0] != d);
        assert forall|i: int| 0 <= i < (seq![s[0]] + r).len() implies (seq![s[0]] + r)[i] != d by {
            if i > 0 {
                assert((seq![s[0]] + r)[i] == r[i - 1]);
            }
        }
    }
}

proof fn lemma_replaced_removes(s: Seq<char>, c: char, with: Seq<char>)
    requires
        !with.contains(c),
    ensures
        !replaced(s, seq![c], with).contains(c),
    decreases s.len(),
{
    let pat = seq![c];
    if s.len() < 1 {
    } else if s.take(1) == pat {
        lemma_replaced_removes(s.skip(1), c, with);
        let r = replaced(s.skip(1), pat, with);
        assert forall|i: int| 0 <= i < (with + r).len() implies (with + r)[i] != c by {
            if i < with.len() {
                assert((with + r)[i] == with[i]);
            } else {
                assert((with + r)[i] == r[i - with.len()]);
            }
        }
    } else {
        assert(s.take(1)[0] == s[0]);
        assert(s[0] != c) by {
            if s[0] == c {
                assert(s.take(1) =~= pat);
            }
        }
        lemma_replaced_removes(s.drop_first(), c, with);
        let r = replaced(s.drop_first(), pat, with);
        assert forall|i: int| 0 <= i < (seq![s[0]] + r).len() implies (seq![s[0]] + r)[i] != c by {
            if i > 0 {
                assert((seq![s[0]] + r)[i] == r[i - 1]);
            }
        }
    }
}

/// `s` with every `c` replaced by `with`, character by character.
pub open spec fn subst(s: Seq<char>, c: char, with: Seq<char>) -> Seq<char>
    decreases s.len(),
{
    if s.len() == 0 {
        s
    } else {
        (if s[0] == c { with } else { seq![s[0]] }) + subst(s.drop_first(), c, with)
    }
}

proof fn lemma_replaced_single(s: Seq<char>, c: char, with: Seq<char>)
    ensures
        replaced(s, seq![c], with) == subst(s, c, with),
    decreases s.len(),
{
    if s.len() > 0 {
        lemma_replaced_single(s.drop_first(), c, with);
        assert(s.skip(1) =~= s.drop_first());
        if s[0] == c {
            assert(s.take(1) =~= seq![c]);
        } else {
            assert(s.take(1)[0] == s[0]);
            assert(s.take(1) != seq![c]);
        }
    }
}

proof fn lemma_subst_concat(a: Seq<char>, b: Seq<char>, c: char, with: Seq<char>)
    ensures
        subst(a + b, c, with) == subst(a, c, with) + subst(b, c, with),
    decreases a.len(),
{
    if a.len() == 0 {
        assert(a + b =~= b);
    } else {
        assert((a + b).drop_first() =~= a.drop_first() + b);
        assert((a + b)[0] == a[0]);
        lemma_subst_concat(a.drop_first(), b, c, with);
        let h = if a[0] == c { with } else { seq![a[0]] };
        assert(h + (subst(a.drop_first(), c, with) + subst(b, c, with)) =~= (h + subst(a.drop_first(), c, with))
            + subst(b, c, with));
    }
}

/// The escape of one character in a label value.
pub open spec fn escape_char(x: char) -> Seq<char> {
    if x == '\\' {
        seq!['\\', '\\']
    } else if x == '"' {
        seq!['\\', '"']
    } else if x == '\r' || x == '\n' {
        seq!['\\', 'n']
    } else {
        seq![x]
    }
}

/// Every character of `s` escaped in turn.
pub open spec fn escape_each(s: Seq<char>) -> Seq<char>
    decreases s.len(),
{
    if s.len() == 0 {
        s
    } else {
        escape_char(s[0]) + escape_each(s.drop_first())
    }
}

/// The four replacements of [`escaped`], as character substitutions.
pub open spec fn subst4(s: Seq<char>) -> Seq<char> {
    subst(subst(subst(subst(s, '\\', seq!['\\', '\\']), '"', seq!['\\', '"']), '\r', seq!['\\', 'n']), '\n', seq!['\\', 'n'])
}

proof fn lemma_subst4_concat(a: Seq<char>, b: Seq<char>)
    ensures
        subst4(a + b) == subst4(a) + subst4(b),
{
    let w1 = seq!['\\', '\\'];
    let w2 = seq!['\\', '"'];
    let w3 = seq!['\\', 'n'];
    lemma_subst_concat(a, b, '\\', w1);
    let (a1, b1) = (subst(a, '\\', w1), subst(b, '\\', w1));
    lemma_subst_concat(a1, b1, '"', w2);
    let (a2, b2) = (subst(a1, '"', w2), subst(b1, '"', w2));
    lemma_subst_concat(a2, b2, '\r', w3);
    let (a3, b3) = (subst(a2, '\r', w3), subst(b2, '\r', w3));
    lemma_subst_concat(a3, b3, '\n', w3);
}

proof fn lemma_subst4_char(x: char)
    ensures
        subst4(seq![x]) == escape_char(x),
{
    reveal_with_fuel(subst, 3);
    let w1 = seq!['\\', '\\'];
    let w2 = seq!['\\', '"'];
    let w3 = seq!['\\', 'n'];
    let s0 = seq![x];
    assert(s0.drop_first() =~= Seq::<char>::empty());
    let s1 = subst(s0, '\\', w1);
    if x == '\\' {
        assert(s1 =~= w1);
        assert(w1.drop_first().drop_first() =~= Seq::<char>::empty());
        assert(w1.drop_first() =~= seq!['\\']);
        assert(subst(w1, '"', w2) =~= w1);
        assert(subst(w1, '\r', w3) =~= w1);
        assert(subst(w1, '\n', w3) =~= w1);
    } else {
        assert(s1 =~= s0);
        let s2 = subst(s1, '"', w2);
        if x == '"' {
            assert(s2 =~= w2);
            assert(w2.drop_first() =~= seq!['"']);
            assert(w2.drop_first().drop_first() =~= Seq::<char>::empty());
            assert(subst(w2, '\r', w3) =~= w2);
            assert(subst(w2, '\n', w3) =~= w2);
        } else {
            assert(s2 =~= s0);
            let s3 = subst(s2, '\r', w3);
            assert(w3.drop_first() =~= seq!['n']);
            assert(w3.drop_first().drop_first() =~= Seq::<char>::empty());
            if x == '\r' {
                assert(s3 =~= w3);
                assert(subst(w3, '\n', w3) =~= w3);
            } else {
                assert(s3 =~= s0);
            }
        }
    }
}

proof fn lemma_escaped_is_subst4(v: Seq<char>)
    ensures
        escaped(v) == subst4(v),
{
    reveal_strlit("\\");
    reveal_strlit("\\\\");
    reveal_strlit("\"");
    reveal_strlit("\\\"");
    reveal_strlit("\r");
    reveal_strlit("\n");
    reveal_strlit("\\n");
    assert("\\"@ =~= seq!['\\']);
    assert("\\\\"@ =~= seq!['\\', '\\']);
    assert("\""@ =~= seq!['"']);
    assert("\\\""@ =~= seq!['\\', '"']);
    assert("\r"@ =~= seq!['\r']);
    assert("\n"@ =~= seq!['\n']);
    assert("\\n"@ =~= seq!['\\', 'n']);
    let w1 = seq!['\\', '\\'];
    let w2 = seq!['\\', '"'];
    let w3 = seq!['\\', 'n'];
    lemma_replaced_single(v, '\\', w1);
    let a = subst(v, '\\', w1);
    lemma_replaced_single(a, '"', w2);
    let b = subst(a, '"', w2);
    lemma_replaced_single(b, '\r', w3);
    let c = subst(b, '\r', w3);
    lemma_replaced_single(c, '\n', w3);
}

proof fn lemma_subst4_each(v: Seq<char>)
    ensures
        subst4(v) == escape_each(v),
    decreases v.len(),
{
    if v.len() == 0 {
        reveal_with_fuel(subst, 1);
    } else {
        assert(v =~= seq![v[0]] + v.drop_first());
        lemma_subst4_concat(seq![v[0]], v.drop_first());
        lemma_subst4_char(v[0]);
        lemma_subst4_each(v.drop_first());
    }
}

/// Decoding the escapes of an exposition label value: a backslash followed
/// by a backslash, a quote or `n` stands for a backslash, a quote or a line
/// feed; every other character stands for itself.
pub open spec fn unescaped(t: Seq<char>) -> Seq<char>
    decreases t.len(),
{
    if t.len() == 0 {
        t
    } else if t.len() >= 2 && t[0] == '\\' && (t[1] == '\\' || t[1] == '"' || t[1] == 'n') {
        seq![if t[1] == 'n' { '\n' } else { t[1] }] + unescaped(t.skip(2))
    } else {
        seq![t[0]] + unescaped(t.drop_first())
    }
}

/// `v` with each carriage return turned into a line feed.
pub open spec fn cr_as_lf(v: Seq<char>) -> Seq<char> {
    v.map_values(|c: char| if c == '\r' { '\n' } else { c })
}

proof fn lemma_unescape_each(v: Seq<char>)
    ensures
        unescaped(escape_each(v)) == cr_as_lf(v),
    decreases v.len(),
{
    if v.len() == 0 {
        assert(cr_as_lf(v) =~= Seq::<char>::empty());
    } else {
        let x = v[0];
        let rest = escape_each(v.drop_first());
        let t = escape_char(x) + rest;
        lemma_unescape_each(v.drop_first());
        if x == '\\' || x == '"' || x == '\r' || x == '\n' {
            assert(t.skip(2) =~= rest);
            assert(t[0] == '\\');
        } else {
            assert(t.drop_first() =~= rest);
            assert(t[0] == x);
        }
        assert(cr_as_lf(v) =~= seq![if x == '\r' { '\n' } else { x }] + cr_as_lf(v.drop_first()));
    }
}

/// Law: escaping a label value loses nothing but the difference between a
/// carriage return and a line feed: decoding the escapes of
/// [`escaped`]`(value)` gives `value` back with each carriage return turned
/// into a line feed.
pub proof fn law_escaped_decodes_to_value(value: Seq<char>)
    ensures
        unescaped(escaped(value)) == cr_as_lf(value),
{
    lemma_escaped_is_subst4(value);
    lemma_subst4_each(value);
    lemma_unescape_each(value);
}

/// An escaped label value holds no carriage return and no line feed, so a
/// provider name can never break an exposition line.
pub proof fn law_escaped_has_no_line_break(value: Seq<char>)
    ensures
        !escaped(value).contains('\r'),
        !escaped(value).contains('\n'),
{
    reveal_strlit("\\");
    reveal_strlit("\\\\");
    reveal_strlit("\"");
    reveal_strlit("\\\"");
    reveal_strlit("\r");
    reveal_strlit("\n");
    reveal_strlit("\\n");
    let a = replaced(value, "\\"@, "\\\\"@);
    let b = replaced(a, "\""@, "\\\""@);
    let c = replaced(b, "\r"@, "\\n"@);
    assert("\r"@ =~= seq!['\r']);
    assert("\n"@ =~= seq!['\n']);
    assert(!"\\n"@.contains('\r')) by {
        assert("\\n"@ =~= seq!['\\', 'n']);
    }
    assert(!"\\n"@.contains('\n')) by {
        assert("\\n"@ =~= seq!['\\', 'n']);
    }
    lemma_replaced_removes(b, '\r', "\\n"@);
    lemma_replaced_keeps_out(c, "\n"@, "\\n"@, '\r');
    lemma_replaced_removes(c, '\n', "\\n"@);
}

/// The view after recording one request.
pub open spec fn recorded(v: MetricsView, success: bool, duration_ms: u64, fallback_used: bool) -> MetricsView {
    MetricsView {
        requests_total: (v.requests_total + 1) as u64,
        requests_failed: if success {
            v.requests_failed
        } else {
            wrap_add(v.requests_failed, 1)
        },
        requests_fallback: if fallback_used {
            wrap_add(v.requests_fallback, 1)
        } else {
            v.requests_fallback
        },
        duration_sum: wrap_add(v.duration_sum, duration_ms),
        buckets: v.buckets.update(bucket_index(duration_ms), (v.buckets[bucket_index(duration_ms)] + 1) as u64),
        ..v
    }
}

/// The view after recording each `(success, duration_ms, fallback_used)`
/// of `reqs` in order.
pub open spec fn recorded_all(v: MetricsView, reqs: Seq<(bool, u64, bool)>) -> MetricsView
    decreases reqs.len(),
{
    if reqs.len() == 0 {
        v
    } else {
        let r = reqs.last();
        recorded(recorded_all(v, reqs.drop_last()), r.0, r.1, r.2)
    }
}

/// How many of `reqs` failed.
pub open spec fn failed_count(reqs: Seq<(bool, u64, bool)>) -> int
    decreases reqs.len(),
{
    if reqs.len() == 0 { 0 } else { failed_count(reqs.drop_last()) + if reqs.last().0 { 0int } else { 1int } }
}

/// How many of `reqs` used a fallback.
pub open spec fn fallback_count(reqs: Seq<(bool, u64, bool)>) -> int
    decreases reqs.len(),
{
    if reqs.len() == 0 { 0 } else { fallback_count(reqs.drop_last()) + if reqs.last().2 { 1int } else { 0int } }
}

/// The summed durations of `reqs`.
pub open spec fn duration_total(reqs: Seq<(bool, u64, bool)>) -> int
    decreases reqs.len(),
{
    if reqs.len() == 0 { 0 } else { duration_total(reqs.drop_last()) + reqs.last().1 }
}

/// How many of `reqs` fall in latency bucket `i`.
pub open spec fn bucket_count(reqs: Seq<(bool, u64, bool)>, i: int) -> int
    decreases reqs.len(),
{
    if reqs.len() == 0 {
        0
    } else {
        bucket_count(reqs.drop_last(), i) + if bucket_index(reqs.last().1) == i { 1int } else { 0int }
    }
}

proof fn lemma_counts_bounded(reqs: Seq<(bool, u64, bool)>, i: int)
    ensures
        0 <= failed_count(reqs) <= reqs.len(),
        0 <= fallback_count(reqs) <= reqs.len(),
        0 <= bucket_count(reqs, i) <= reqs.len(),
        0 <= duration_total(reqs),
    decreases reqs.len(),
{
    if reqs.len() > 0 {
        lemma_counts_bounded(reqs.drop_last(), i);
    }
}

proof fn lemma_recorded_all(reqs: Seq<(bool, u64, bool)>)
    requires
        reqs.len() < u64::MAX,
        duration_total(reqs) <= u64::MAX,
    ensures
        ({
            let v = recorded_all(empty_metrics(), reqs);
            &&& v.requests_total == reqs.len()
            &&& v.requests_failed == failed_count(reqs)
            &&& v.requests_fallback == fallback_count(reqs)
            &&& v.duration_sum == duration_total(reqs)
            &&& v.buckets.len() == 9
            &&& forall|i: int| 0 <= i < 9 ==> #[trigger] v.buckets[i] == bucket_count(reqs, i)
        }),
    decreases reqs.len(),
{
    if reqs.len() > 0 {
        let rest = reqs.drop_last();
        lemma_counts_bounded(reqs, 0);
        lemma_counts_bounded(rest, 0);
        lemma_recorded_all(rest);
        let v = recorded_all(empty_metrics(), rest);
        let r = reqs.last();
        assert forall|i: int| 0 <= i < 9 implies #[trigger] recorded(v, r.0, r.1, r.2).buckets[i] == bucket_count(reqs, i) by {
            lemma_counts_bounded(rest, i);
            lemma_counts_bounded(reqs, i);
        }
    }
}

/// The view of metrics that have recorded nothing.
pub open spec fn empty_metrics() -> MetricsView {
    MetricsView {
        requests_total: 0,
        requests_failed: 0,
        requests_fallback: 0,
        duration_sum: 0,
        buckets: Seq::new(9, |i: int| 0u64),
        loads: 0,
        unloads: 0,
        evictions: 0,
        idle_unloads: 0,
        load_failures: 0,
        usage: no_usage(),
    }
}

/// After recording `n` requests on fresh metrics, the totals are exact: `n`
/// requests, as many failures and fallbacks as there were, the summed
/// durations, and each latency bucket counting the requests that fall in it.
pub proof fn law_recorded_requests_are_counted(reqs: Seq<(bool, u64, bool)>)
    requires
        reqs.len() < u64::MAX,
        duration_total(reqs) <= u64::MAX,
    ensures
        recorded_all(empty_metrics(), reqs).requests_total == reqs.len(),
        recorded_all(empty_metrics(), reqs).requests_failed == failed_count(reqs),
        recorded_all(empty_metrics(), reqs).requests_fallback == fallback_count(reqs),
        recorded_all(empty_metrics(), reqs).duration_sum == duration_total(reqs),
        forall|i: int|
            0 <= i < 9 ==> #[trigger] recorded_all(empty_metrics(), reqs).buckets[i] == bucket_count(reqs, i),
{
    lemma_recorded_all(reqs);
}

/// How many of `reqs` fall in a latency bucket below `i`, that is, took at
/// most the bound of bucket `i - 1` (every request for `i` = 9, `+Inf`).
pub open spec fn below_count(reqs: Seq<(bool, u64, bool)>, i: int) -> int
    decreases reqs.len(),
{
    if reqs.len() == 0 {
        0
    } else {
        below_count(reqs.drop_last(), i) + if bucket_index(reqs.last().1) < i { 1int } else { 0int }
    }
}

proof fn lemma_below_step(reqs: Seq<(bool, u64, bool)>, i: int)
    ensures
        below_count(reqs, i + 1) == below_count(reqs, i) + bucket_count(reqs, i),
        below_count(reqs, 0) == 0,
        below_count(reqs, 9) == reqs.len(),
    decreases reqs.len(),
{
    if reqs.len() > 0 {
        lemma_below_step(reqs.drop_last(), i);
    }
}

proof fn lemma_prefix_is_below(reqs: Seq<(bool, u64, bool)>, b: Seq<u64>, i: int)
    requires
        0 <= i <= 9,
        b.len() == 9,
        forall|j: int| 0 <= j < 9 ==> #[trigger] b[j] == bucket_count(reqs, j),
    ensures
        prefix_total(b, i) == below_count(reqs, i),
    decreases i,
{
    lemma_below_step(reqs, i - 1);
    if i > 0 {
        lemma_prefix_is_below(reqs, b, i - 1);
    }
}

/// Law: the rendered histogram is cumulative over the recorded requests.
/// After recording `reqs` on fresh metrics, the count the histogram shows
/// for bucket `i` (the sum of buckets `0..=i`, as rendered) is the number of
/// requests that took at most that bucket's bound, and the `+Inf` bucket
/// shows every request.
pub proof fn law_histogram_is_cumulative(reqs: Seq<(bool, u64, bool)>)
    requires
        reqs.len() < u64::MAX,
        duration_total(reqs) <= u64::MAX,
    ensures
        forall|i: int|
            0 <= i < 8 ==> #[trigger] prefix_total(recorded_all(empty_metrics(), reqs).buckets, i + 1)
                == below_count(reqs, i + 1),
        forall|i: int, d: u64| 0 <= i < 8 ==> (#[trigger] bucket_index(d) < i + 1 <==> d <= #[trigger] bucket_bound(i)),
        prefix_total(recorded_all(empty_metrics(), reqs).buckets, 9) == reqs.len(),
{
    lemma_recorded_all(reqs);
    let b = recorded_all(empty_metrics(), reqs).buckets;
    assert forall|i: int| 0 <= i < 8 implies #[trigger] prefix_total(b, i + 1) == below_count(reqs, i + 1) by {
        lemma_prefix_is_below(reqs, b, i + 1);
    }
    lemma_prefix_is_below(reqs, b, 9);
    lemma_below_step(reqs, 0);
}

/// The routability line of each provider.
pub open spec fn up_lines(l: Seq<(String, bool)>) -> Seq<char>
    decreases l.len(),
{
    if l.len() == 0 {
        Seq::empty()
    } else {
        up_lines(l.drop_last()) + "mofa_provider_up{provider=\""@ + escaped(l.last().0@) + "\"} "@ + (if l.last().1 {
            "1"@
        } else {
            "0"@
        }) + "\n"@
    }
}

/// The locality label of a provider's totals.
pub open spec fn locality_text(local: Option<bool>) -> Seq<char> {
    match local {
        Some(true) => "local"@,
        Some(false) => "cloud"@,
        None => "unknown"@,
    }
}

/// The two token lines of each provider.
pub open spec fn token_lines(l: Seq<(String, ProviderUsage)>) -> Seq<char>
    decreases l.len(),
{
    if l.len() == 0 {
        Seq::empty()
    } else {
        let (name, u) = l.last();
        let labels = "provider=\""@ + escaped(name@) + "\",locality=\""@ + locality_text(u.local);
        token_lines(l.drop_last()) + "mofa_tokens_total{"@ + labels + "\",direction=\"prompt\"} "@ + num(
            u.prompt_tokens as int,
        ) + "\n"@ + "mofa_tokens_total{"@ + labels + "\",direction=\"completion\"} "@ + num(
            u.completion_tokens as int,
        ) + "\n"@
    }
}

/// `s` without its trailing `0` characters.
pub open spec fn trim_zeros(s: Seq<char>) -> Seq<char>
    decreases s.len(),
{
    if s.len() > 0 && s.last() == '0' {
        trim_zeros(s.drop_last())
    } else {
        s
    }
}

/// The last six decimal digits of `n`, zero-padded on the left.
pub open spec fn six_digits(n: nat) -> Seq<char> {
    seq![
        digit_char(n / 100000 % 10),
        digit_char(n / 10000 % 10),
        digit_char(n / 1000 % 10),
        digit_char(n / 100 % 10),
        digit_char(n / 10 % 10),
        digit_char(n % 10),
    ]
}

/// A spend of `micro` millionths of a dollar in dollars, as plain decimal
/// text with no trailing zeros (`0.003`, `12`, `1.5`).
pub open spec fn usd_text(micro: u64) -> Seq<char> {
    let whole = micro / 1000000;
    let frac = micro % 1000000;
    if frac == 0 {
        num(whole as int)
    } else {
        num(whole as int) + "."@ + trim_zeros(six_digits(frac as nat))
    }
}

/// The cost line of each provider.
pub open spec fn cost_lines(l: Seq<(String, ProviderUsage)>) -> Seq<char>
    decreases l.len(),
{
    if l.len() == 0 {
        Seq::empty()
    } else {
        let (name, u) = l.last();
        cost_lines(l.drop_last()) + "mofa_cost_usd_total{provider=\""@ + escaped(name@) + "\",locality=\""@
            + locality_text(u.local) + "\"} "@ + usd_text(u.cost_micro_usd) + "\n"@
    }
}

/// The whole exposition body, the per-provider sections listed in `l`.
pub open spec fn prometheus_text(v: MetricsView, g: MetricsGauges, l: Seq<(String, ProviderUsage)>) -> Seq<char> {
    counters_text(v) + histogram_text(v) + gauges_text(g)
        + "# HELP mofa_provider_up Provider routability (1 = routable).\n# TYPE mofa_provider_up gauge\n"@
        + up_lines(g.provider_up@)
        + "# HELP mofa_tokens_total Tokens processed, by provider, locality, and direction.\n# TYPE mofa_tokens_total counter\n"@
        + token_lines(l)
        + "# HELP mofa_cost_usd_total Estimated spend in USD, by provider and locality.\n# TYPE mofa_cost_usd_total counter\n"@
        + cost_lines(l)
}

/// Escape a label value for the exposition format (see [`escaped`]).
pub fn escape_label_value(value: &str) -> (r: String)
    ensures
        r@ == escaped(value@),
{
    proof {
        reveal_strlit("\\");
        reveal_strlit("\"");
        reveal_strlit("\r");
        reveal_strlit("\n");
    }
    let a = replace_all(value, "\\", "\\\\");
    let b = replace_all(a.as_str(), "\"", "\\\"");
    let c = replace_all(b.as_str(), "\r", "\\n");
    replace_all(c.as_str(), "\n", "\\n")
}

/// A spend in millionths of a dollar written in dollars (see [`usd_text`]).
pub fn usd_decimal(micro: u64) -> (r: String)
    ensures
        r@ == usd_text(micro),
{
    let whole = micro / 1000000;
    let frac = micro % 1000000;
    let w = u64_to_decimal(whole);
    if frac == 0 {
        return w;
    }
    let mut digits: Vec<char> = vec![
        digit_of(frac / 100000 % 10),
        digit_of(frac / 10000 % 10),
        digit_of(frac / 1000 % 10),
        digit_of(frac / 100 % 10),
        digit_of(frac / 10 % 10),
        digit_of(frac % 10),
    ];
    assert(digits@ =~= six_digits(frac as nat));
    while digits.len() > 0 && digits[digits.len() - 1] == '0'
        invariant
            trim_zeros(six_digits(frac as nat)) == trim_zeros(digits@),
        decreases digits.len(),
    {
        let ghost before = digits@;
        digits.pop();
        assert(digits@ =~= before.drop_last());
    }
    let tail = string_from_chars(&digits);
    let a = concat(w.as_str(), ".");
    concat(a.as_str(), tail.as_str())
}

fn push_counter(out: String, name: &str, help: &str, value: u64) -> (r: String)
    ensures
        r@ == out@ + counter_text(name@, help@, value),
{
    let a = concat(out.as_str(), "# HELP ");
    let b = concat(a.as_str(), name);
    let c = concat(b.as_str(), " ");
    let d = concat(c.as_str(), help);
    let e = concat(d.as_str(), "\n# TYPE ");
    let f = concat(e.as_str(), name);
    let g = concat(f.as_str(), " counter\n");
    let h = concat(g.as_str(), name);
    let i = concat(h.as_str(), " ");
    let j = concat(i.as_str(), u64_to_decimal(value).as_str());
    let k = concat(j.as_str(), "\n");
    assert(k@ =~= out@ + counter_text(name@, help@, value));
    k
}

fn push_gauge(out: String, name: &str, help: &str, value: u64) -> (r: String)
    ensures
        r@ == out@ + gauge_text(name@, help@, value),
{
    let a = concat(out.as_str(), "# HELP ");
    let b = concat(a.as_str(), name);
    let c = concat(b.as_str(), " ");
    let d = concat(c.as_str(), help);
    let e = concat(d.as_str(), "\n# TYPE ");
    let f = concat(e.as_str(), name);
    let g = concat(f.as_str(), " gauge\n");
    let h = concat(g.as_str(), name);
    let i = concat(h.as_str(), " ");
    let j = concat(i.as_str(), u64_to_decimal(value).as_str());
    let k = concat(j.as_str(), "\n");
    assert(k@ =~= out@ + gauge_text(name@, help@, value));
    k
}

fn push_up_lines(out: String, l: &Vec<(String, bool)>) -> (r: String)
    ensures
        r@ == out@ + up_lines(l@),
{
    let ghost start = out@;
    let mut cur = out;
    let mut i: usize = 0;
    assert(l@.take(0) =~= Seq::<(String, bool)>::empty());
    assert(start + up_lines(l@.take(0)) =~= start);
    while i < l.len()
        invariant
            i <= l@.len(),
            cur@ == start + up_lines(l@.take(i as int)),
        decreases l.len() - i,
    {
        let a = concat(cur.as_str(), "mofa_provider_up{provider=\"");
        let b = concat(a.as_str(), escape_label_value(l[i].0.as_str()).as_str());
        let c = concat(b.as_str(), "\"} ");
        let d = concat(c.as_str(), if l[i].1 { "1" } else { "0" });
        let e = concat(d.as_str(), "\n");
        assert(l@.take(i as int + 1).drop_last() =~= l@.take(i as int));
        assert(e@ =~= start + up_lines(l@.take(i as int + 1)));
        cur = e;
        i = i + 1;
    }
    assert(l@.take(i as int) =~= l@);
    cur
}

fn locality(local: Option<bool>) -> (r: &'static str)
    ensures
        r@ == locality_text(local),
{
    match local {
        Some(true) => "local",
        Some(false) => "cloud",
        None => "unknown",
    }
}

fn push_token_lines(out: String, l: &Vec<(String, ProviderUsage)>) -> (r: String)
    ensures
        r@ == out@ + token_lines(l@),
{
    let ghost start = out@;
    let mut cur = out;
    let mut i: usize = 0;
    assert(l@.take(0) =~= Seq::<(String, ProviderUsage)>::empty());
    assert(start + token_lines(l@.take(0)) =~= start);
    while i < l.len()
        invariant
            i <= l@.len(),
            cur@ == start + token_lines(l@.take(i as int)),
        decreases l.len() - i,
    {
        let name = escape_label_value(l[i].0.as_str());
        let u = l[i].1;
        let p = concat("provider=\"", name.as_str());
        let q = concat(p.as_str(), "\",locality=\"");
        let labels = concat(q.as_str(), locality(u.local));
        let a = concat(cur.as_str(), "mofa_tokens_total{");
        let b = concat(a.as_str(), labels.as_str());
        let c = concat(b.as_str(), "\",direction=\"prompt\"} ");
        let d = concat(c.as_str(), u64_to_decimal(u.prompt_tokens).as_str());
        let e = concat(d.as_str(), "\n");
        let f = concat(e.as_str(), "mofa_tokens_total{");
        let g = concat(f.as_str(), labels.as_str());
        let h = concat(g.as_str(), "\",direction=\"completion\"} ");
        let j = concat(h.as_str(), u64_to_decimal(u.completion_tokens).as_str());
        let k = concat(j.as_str(), "\n");
        assert(l@.take(i as int + 1).drop_last() =~= l@.take(i as int));
        assert(l@.take(i as int + 1).last() == l@[i as int]);
        assert(k@ =~= start + token_lines(l@.take(i as int + 1)));
        cur = k;
        i = i + 1;
    }
    assert(l@.take(i as int) =~= l@);
    cur
}

fn push_cost_lines(out: String, l: &Vec<(String, ProviderUsage)>) -> (r: String)
    ensures
        r@ == out@ + cost_lines(l@),
{
    let ghost start = out@;
    let mut cur = out;
    let mut i: usize = 0;
    assert(l@.take(0) =~= Seq::<(String, ProviderUsage)>::empty());
    assert(start + cost_lines(l@.take(0)) =~= start);
    while i < l.len()
        invariant
            i <= l@.len(),
            cur@ == start + cost_lines(l@.take(i as int)),
        decreases l.len() - i,
    {
        let u = l[i].1;
        let a = concat(cur.as_str(), "mofa_cost_usd_total{provider=\"");
        let b = concat(a.as_str(), escape_label_value(l[i].0.as_str()).as_str());
        let c = concat(b.as_str(), "\",locality=\"");
        let d = concat(c.as_str(), locality(u.local));
        let e = concat(d.as_str(), "\"} ");
        let f = concat(e.as_str(), usd_decimal(u.cost_micro_usd).as_str());
        let g = concat(f.as_str(), "\n");
        assert(l@.take(i as int + 1).drop_last() =~= l@.take(i as int));
        assert(l@.take(i as int + 1).last() == l@[i as int]);
        assert(g@ =~= start + cost_lines(l@.take(i as int + 1)));
        cur = g;
        i = i + 1;
    }
    assert(l@.take(i as int) =~= l@);
    cur
}

impl EngineMetrics {
    fn push_histogram(&self, out: String) -> (r: String)
        ensures
            r@ == out@ + histogram_text(self@),
    {
        proof {
            use_type_invariant(&self.latency);
        }
        let ghost b = self@.buckets;
        let ghost start = out@;
        let mut cur = concat(
            out.as_str(),
            "# HELP mofa_request_duration_ms Request latency in milliseconds.\n# TYPE mofa_request_duration_ms histogram\n",
        );
        let ghost head = cur@;
        let mut cumulative: u64 = 0;
        let mut i: usize = 0;
        while i < BUCKET_COUNT
            invariant
                b == self@.buckets,
                b.len() == BUCKET_COUNT + 1,
                prefix_total(b, BUCKET_COUNT + 1) == self@.requests_total,
                i <= BUCKET_COUNT,
                cumulative == prefix_total(b, i as int),
                cur@ == head + bucket_lines(b, i as int),
            decreases BUCKET_COUNT - i,
        {
            proof {
                lemma_prefix_bounded(b, i as int + 1, BUCKET_COUNT + 1);
            }
            cumulative = cumulative + self.latency.buckets[i];
            let a = concat(cur.as_str(), "mofa_request_duration_ms_bucket{le=\"");
            let c = concat(a.as_str(), u64_to_decimal(latency_bound(i)).as_str());
            let d = concat(c.as_str(), "\"} ");
            let e = concat(d.as_str(), u64_to_decimal(cumulative).as_str());
            let f = concat(e.as_str(), "\n");
            assert(f@ =~= head + bucket_lines(b, i as int + 1));
            cur = f;
            i = i + 1;
        }
        let total = self.latency.count;
        let a = concat(cur.as_str(), "mofa_request_duration_ms_bucket{le=\"+Inf\"} ");
        let c = concat(a.as_str(), u64_to_decimal(total).as_str());
        let d = concat(c.as_str(), "\n");
        let e = concat(d.as_str(), "mofa_request_duration_ms_sum ");
        let f = concat(e.as_str(), u64_to_decimal(self.request_duration_ms_sum).as_str());
        let g = concat(f.as_str(), "\n");
        let h = concat(g.as_str(), "mofa_request_duration_ms_count ");
        let j = concat(h.as_str(), u64_to_decimal(total).as_str());
        let k = concat(j.as_str(), "\n");
        assert(k@ =~= start + histogram_text(self@));
        k
    }

    /// The counter section of the exposition body.
    fn push_counters(&self, out: String) -> (r: String)
        ensures
            r@ == out@ + counters_text(self@),
    {
        let ghost o = out@;
        let out = push_counter(out, "mofa_requests_total", "Total inference requests handled.", self.latency.count);
        let out = push_counter(out, "mofa_requests_failed_total", "Inference requests that returned an error.", self.requests_failed);
        let out = push_counter(out, "mofa_requests_fallback_total", "Requests served by a fallback candidate.", self.requests_fallback);
        let out = push_counter(out, "mofa_model_loads_total", "Model load operations.", self.loads_total);
        let out = push_counter(out, "mofa_model_unloads_total", "Explicit model unload operations.", self.unloads_total);
        let out = push_counter(out, "mofa_model_evictions_total", "Models evicted under memory pressure.", self.evictions_total);
        let out = push_counter(out, "mofa_model_idle_unloads_total", "Models unloaded by the idle sweep.", self.idle_unloads_total);
        let out = push_counter(out, "mofa_model_load_failures_total", "Failed or timed-out model loads.", self.load_failures_total);
        assert(out@ =~= o + counters_text(self@));
        out
    }

    /// The Prometheus text-exposition body: the counters, the cumulative
    /// latency histogram, the engine's gauges, provider routability, and the
    /// token and cost totals of each provider (in the table's own order).
    #[verifier::spinoff_prover]
    #[verifier::rlimit(40)]
    pub fn render_prometheus(&self, gauges: &MetricsGauges) -> (r: String)
        ensures
            exists|l: Seq<(String, ProviderUsage)>|
                lists_usage(l, self@.usage) && r@ == prometheus_text(self@, *gauges, l),
            shows_gauges(r@, *gauges),
    {
        let out = self.push_counters(String::new());
        let out = self.push_histogram(out);
        let out = push_gauges(out, gauges);
        let ghost head = out@;
        assert(head =~= counters_text(self@) + histogram_text(self@) + gauges_text(*gauges));
        let out = concat(
            out.as_str(),
            "# HELP mofa_provider_up Provider routability (1 = routable).\n# TYPE mofa_provider_up gauge\n",
        );
        proof { lemma_shows_extend(head, out@.skip(head.len() as int), *gauges); assert(out@ =~= head + out@.skip(head.len() as int)); }
        let ghost s1 = out@;
        let out = push_up_lines(out, &gauges.provider_up);
        proof { lemma_shows_extend(s1, out@.skip(s1.len() as int), *gauges); assert(out@ =~= s1 + out@.skip(s1.len() as int)); }
        let ghost s2 = out@;
        let out = concat(
            out.as_str(),
            "# HELP mofa_tokens_total Tokens processed, by provider, locality, and direction.\n# TYPE mofa_tokens_total counter\n",
        );
        proof { lemma_shows_extend(s2, out@.skip(s2.len() as int), *gauges); assert(out@ =~= s2 + out@.skip(s2.len() as int)); }
        let ghost s3 = out@;
        let entries = usage_table_entries(&self.per_provider);
        let out = push_token_lines(out, &entries);
        proof { lemma_shows_extend(s3, out@.skip(s3.len() as int), *gauges); assert(out@ =~= s3 + out@.skip(s3.len() as int)); }
        let ghost s4 = out@;
        let out = concat(
            out.as_str(),
            "# HELP mofa_cost_usd_total Estimated spend in USD, by provider and locality.\n# TYPE mofa_cost_usd_total counter\n",
        );
        proof { lemma_shows_extend(s4, out@.skip(s4.len() as int), *gauges); assert(out@ =~= s4 + out@.skip(s4.len() as int)); }
        let ghost s5 = out@;
        let out = push_cost_lines(out, &entries);
        proof { lemma_shows_extend(s5, out@.skip(s5.len() as int), *gauges); assert(out@ =~= s5 + out@.skip(s5.len() as int)); }
        assert(out@ =~= prometheus_text(self@, *gauges, entries@));
        out
    }
}

/// The gauge section of the exposition body.
fn push_gauges(out: String, gauges: &MetricsGauges) -> (r: String)
    ensures
        r@ == out@ + gauges_text(*gauges),
        shows_gauges(r@, *gauges),
{
    let ghost o = out@;
    let out = push_gauge(out, "mofa_models_total", "Known models in the registry.", gauges.models_total);
    let out = push_gauge(out, "mofa_models_loaded", "Models currently resident.", gauges.models_loaded);
    let out = push_gauge(out, "mofa_memory_used_bytes", "Reserved model memory in bytes.", gauges.memory_used_bytes);
    let out = push_gauge(out, "mofa_memory_budget_bytes", "Total model memory budget in bytes.", gauges.memory_budget_bytes);
    let out = push_gauge(out, "mofa_preflight_warms_total", "Speculative warm tasks started.", gauges.preflight_warms_started);
    let out = push_gauge(out, "mofa_preflight_hits_total", "Confirmed predictive-warm hits.", gauges.preflight_hits);
    assert(out@ =~= o + gauges_text(*gauges));
    proof {
        law_gauges_show_their_fields(*gauges, o, Seq::empty());
        assert(o + gauges_text(*gauges) + Seq::<char>::empty() =~= out@);
    }
    out
}

/// Recording a request keeps the histogram consistent: one bucket per bound
/// plus `+Inf`, and the buckets adding up to the requests recorded.
pub proof fn law_record_keeps_histogram_consistent(v: MetricsView, duration_ms: u64)
    requires
        consistent(v),
        v.requests_total < u64::MAX,
    ensures
        consistent(
            MetricsView {
                requests_total: (v.requests_total + 1) as u64,
                buckets: v.buckets.update(
                    bucket_index(duration_ms),
                    (v.buckets[bucket_index(duration_ms)] + 1) as u64,
                ),
                ..v
            },
        ),
{
    let k = bucket_index(duration_ms);
    lemma_prefix_bounded(v.buckets, k + 1, 9);
    lemma_prefix_bounded(v.buckets, k, k);
    assert(prefix_total(v.buckets, k + 1) == prefix_total(v.buckets, k) + v.buckets[k]);
    lemma_prefix_bump(v.buckets, k, 9);
}

} // verus!
