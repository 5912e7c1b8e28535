use mofa_engine::metrics::{escape_label_value, usd_decimal, EngineMetrics, MetricsGauges};

#[test]
fn histogram_and_counters_render() {
    let mut m = EngineMetrics::new();
    m.record_request(true, 30, false);
    m.record_request(false, 1500, true);
    m.record_lifecycle("load");
    m.record_lifecycle("idle_unload");

    let gauges = MetricsGauges {
        models_total: 3,
        models_loaded: 1,
        memory_budget_bytes: 1000,
        provider_up: vec![("ollama".into(), true)],
        ..Default::default()
    };
    let text = m.render_prometheus(&gauges);

    assert!(text.contains("mofa_requests_total 2"));
    assert!(text.contains("mofa_requests_failed_total 1"));
    assert!(text.contains("mofa_requests_fallback_total 1"));
    assert!(text.contains("mofa_model_loads_total 1"));
    assert!(text.contains("mofa_model_idle_unloads_total 1"));
    assert!(text.contains("mofa_request_duration_ms_bucket{le=\"+Inf\"} 2"));
    assert!(text.contains("mofa_request_duration_ms_count 2"));
    assert!(text.contains("mofa_request_duration_ms_sum 1530"));
    assert!(text.contains("mofa_provider_up{provider=\"ollama\"} 1"));
}

#[test]
fn per_provider_token_and_cost_render() {
    let mut m = EngineMetrics::new();
    m.record_usage("openai", false, Some(100), Some(40), Some(2100));
    m.record_usage("openai", false, Some(50), Some(10), Some(900));
    m.record_usage("ollama", true, Some(30), Some(20), None);

    let text = m.render_prometheus(&MetricsGauges::default());
    assert!(text.contains("mofa_tokens_total{provider=\"openai\",locality=\"cloud\",direction=\"prompt\"} 150"));
    assert!(text.contains("mofa_tokens_total{provider=\"openai\",locality=\"cloud\",direction=\"completion\"} 50"));
    assert!(text.contains("mofa_tokens_total{provider=\"ollama\",locality=\"local\",direction=\"prompt\"} 30"));
    assert!(text.contains("mofa_cost_usd_total{provider=\"openai\",locality=\"cloud\"} 0.003"));
    assert!(text.contains("mofa_cost_usd_total{provider=\"ollama\",locality=\"local\"} 0"));
}

#[test]
fn provider_label_values_are_escaped() {
    let m = EngineMetrics::new();
    let gauges = MetricsGauges {
        provider_up: vec![("we\"ird\\name".into(), true)],
        ..Default::default()
    };
    let text = m.render_prometheus(&gauges);
    assert!(text.contains(r#"mofa_provider_up{provider="we\"ird\\name"} 1"#));
}

#[test]
fn latency_buckets_are_cumulative() {
    let mut m = EngineMetrics::new();
    m.record_request(true, 10, false);
    m.record_request(true, 80, false);
    let text = m.render_prometheus(&MetricsGauges::default());
    assert!(text.contains("mofa_request_duration_ms_bucket{le=\"50\"} 1"));
    assert!(text.contains("mofa_request_duration_ms_bucket{le=\"100\"} 2"));
    assert!(text.contains("mofa_request_duration_ms_bucket{le=\"10000\"} 2"));
}

#[test]
fn slow_requests_land_in_the_infinite_bucket_only() {
    let mut m = EngineMetrics::new();
    m.record_request(true, 10001, false);
    let text = m.render_prometheus(&MetricsGauges::default());
    assert!(text.contains("mofa_request_duration_ms_bucket{le=\"10000\"} 0"));
    assert!(text.contains("mofa_request_duration_ms_bucket{le=\"+Inf\"} 1"));
    assert_eq!(m.request_count(), 1);
    assert!(m.check_consistent());
}

#[test]
fn lifecycle_events_map_to_counters() {
    let mut m = EngineMetrics::new();
    for e in ["unload", "evict", "load_failed", "load_timeout", "other"] {
        m.record_lifecycle(e);
    }
    let text = m.render_prometheus(&MetricsGauges::default());
    assert!(text.contains("mofa_model_unloads_total 1"));
    assert!(text.contains("mofa_model_evictions_total 1"));
    assert!(text.contains("mofa_model_load_failures_total 2"));
    assert!(text.contains("mofa_model_loads_total 0"));
}

#[test]
fn label_escaping_and_dollars() {
    assert_eq!(escape_label_value("a\r\nb"), "a\\n\\nb");
    assert_eq!(usd_decimal(0), "0");
    assert_eq!(usd_decimal(3000), "0.003");
    assert_eq!(usd_decimal(1_500_000), "1.5");
    assert_eq!(usd_decimal(12_000_001), "12.000001");
}

#[test]
fn locality_is_fixed_by_first_use() {
    let mut m = EngineMetrics::new();
    m.record_usage("p", true, None, None, None);
    m.record_usage("p", false, Some(1), None, None);
    let text = m.render_prometheus(&MetricsGauges::default());
    assert!(text.contains("mofa_tokens_total{provider=\"p\",locality=\"local\",direction=\"prompt\"} 1"));
}
