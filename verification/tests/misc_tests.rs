use std::sync::Arc;

use bongas_ai::cap::{enforce_scenario_cap, scenario_cap_setting};
use bongas_ai::discovery::{DiscoveryConfig, DiscoveryRegistry};
use bongas_ai::insight::{choose_target_slug, judge_simulation, SuggestionVerdict};
use bongas_ai::json::{JsonNumber, JsonValue};
use bongas_ai::metrics::DatabaseMetrics;
use bongas_ai::pool::{settle_query, BreakerFailure, PoolFailure, PoolStats};
use bongas_ai::scenario::{PipelineDefinition, PipelineStageConfig, ScenarioDefinition};
use bongas_ai::stages::{
    CandleDynamicStage, CollaborativeFilteringStage, ContentBasedStage, DiversifierRoute, DynamicDiversifiersStage,
    HybridStage, StageDataKind,
};
use bongas_ai::symphony::DiscoverySymphony;
use bongas_ai::table::KeyedTable;
use bongas_ai::text::{replace_char, same_text, starts_with};

fn object(members: Vec<(&str, JsonValue)>) -> JsonValue {
    JsonValue::Object(members.into_iter().map(|(k, v)| (k.to_string(), v)).collect())
}

fn def(slug: &str, stages: usize) -> ScenarioDefinition<u8> {
    ScenarioDefinition {
        slug: slug.to_string(),
        name: slug.to_string(),
        pipeline: PipelineDefinition {
            stages: (0..stages).map(|i| PipelineStageConfig { stage_type: format!("s{}", i), params: String::new() }).collect(),
            fallback_stages: None,
        },
        maturity_rating: "GE".to_string(),
        cache_ttl_seconds: 0,
        use_l2_cache: false,
        initial_display_limit: 0,
        scope: JsonValue::Null,
        linked_pipeline: None,
    }
}

fn config(device: &str, batch: i32) -> DiscoveryConfig {
    DiscoveryConfig {
        device_type: device.to_string(),
        initial_batch_size: batch,
        continuation_batch_size: batch,
        prewarm_lookahead: 1,
        ghost_ttl_seconds: 10,
        cache_ttl_seconds: 20,
        updated_at: 0,
    }
}

#[test]
fn cap_keeps_longest_pipelines_in_given_order() {
    let kept = enforce_scenario_cap(vec![def("a", 1), def("b", 3), def("c", 2), def("d", 3)], 2);
    let slugs: Vec<&str> = kept.iter().map(|d| d.slug.as_str()).collect();
    assert_eq!(slugs, vec!["b", "d"]);
    let kept = enforce_scenario_cap(vec![def("a", 1), def("b", 1), def("c", 1)], 2);
    let slugs: Vec<&str> = kept.iter().map(|d| d.slug.as_str()).collect();
    assert_eq!(slugs, vec!["a", "b"]);
    assert_eq!(enforce_scenario_cap(vec![def("a", 1), def("b", 0)], 5).len(), 2);
    assert_eq!(enforce_scenario_cap(vec![def("a", 1)], 0).len(), 0);
}

#[test]
fn metrics_count_and_average() {
    let mut m = DatabaseMetrics::new();
    m.record_query_start();
    m.record_query_success();
    m.record_query_start();
    m.record_query_failure();
    m.record_query_rejected();
    m.record_circuit_open();
    m.accumulate_latency(300);
    assert_eq!(m.queries_started(), 2);
    assert_eq!(m.queries_succeeded(), 1);
    assert_eq!(m.queries_failed(), 1);
    assert_eq!(m.queries_rejected(), 1);
    assert_eq!(m.circuit_opens(), 1);
    assert!(m.total_latency_us() >= 300);
    assert_eq!(m.average_latency_us(), m.total_latency_us() / 2);
    m.reset();
    assert_eq!(m.queries_started(), 0);
    assert_eq!(m.queries_succeeded(), 0);
    assert_eq!(m.total_latency_us(), 0);
    assert_eq!(m.average_latency_us(), 0);
    let d = DatabaseMetrics::default();
    assert_eq!(d.queries_started(), 0);
}

#[test]
fn settled_queries_are_counted_and_reported() {
    let mut m = DatabaseMetrics::new();
    assert!(matches!(settle_query(&mut m, Ok::<u8, BreakerFailure>(5)), Ok(5)));
    assert_eq!(m.queries_succeeded(), 1);
    assert!(matches!(settle_query::<u8>(&mut m, Err(BreakerFailure::Rejected)), Err(PoolFailure::CircuitOpen)));
    assert_eq!(m.queries_failed(), 1);
    assert_eq!(m.circuit_opens(), 1);
    match settle_query::<u8>(&mut m, Err(BreakerFailure::ExecutionFailed { source: "boom".to_string() })) {
        Err(PoolFailure::OperationFailed(s)) => assert_eq!(s, "boom"),
        _ => panic!("expected an operation failure"),
    }
    assert!(matches!(
        settle_query::<u8>(&mut m, Err(BreakerFailure::TimedOut { timeout_ms: 30000 })),
        Err(PoolFailure::TimedOut { timeout_ms: 30000 })
    ));
    assert_eq!(m.queries_failed(), 3);
    assert_eq!(m.circuit_opens(), 1);
}

#[test]
fn pool_stats_line() {
    let s = PoolStats { size: 4, idle: 2, max_connections: 20, bulkhead_available: 97, bulkhead_max: 100 };
    assert_eq!(s.describe(), "Pool[size=4/20, idle=2, bulkhead=97/100]");
}

#[test]
fn discovery_config_fallback_chain() {
    let mut r = DiscoveryRegistry::new();
    let fallback = r.get_discovery_config(Some("tv"));
    assert_eq!(fallback.device_type, "fallback");
    assert_eq!(fallback.initial_batch_size, 5);
    assert_eq!(fallback.ghost_ttl_seconds, 300);
    assert_eq!(fallback.cache_ttl_seconds, 300);
    assert!(fallback.updated_at > 0);
    assert_eq!(r.reload(vec![config("default", 8), config("tv", 12), config("tv", 14)]), 3);
    assert_eq!(r.get_discovery_config(Some("tv")).initial_batch_size, 14);
    assert_eq!(r.get_discovery_config(Some("web")).device_type, "default");
    assert_eq!(r.get_discovery_config(None).initial_batch_size, 8);
}

#[test]
fn simulation_verdicts() {
    let keeps = object(vec![("suggested_ids", JsonValue::Array(vec![JsonValue::Number(JsonNumber::PosInt(1))]))]);
    let empty = object(vec![("suggested_ids", JsonValue::Array(vec![]))]);
    let ok = object(vec![("impact_comparison", JsonValue::Array(vec![keeps.clone_value()]))]);
    assert!(judge_simulation(&ok) == SuggestionVerdict::Approve);
    let bad = object(vec![("impact_comparison", JsonValue::Array(vec![keeps, empty]))]);
    assert!(judge_simulation(&bad) == SuggestionVerdict::LeavePending);
    assert!(judge_simulation(&object(vec![])) == SuggestionVerdict::Undecided);
    assert!(judge_simulation(&object(vec![("impact_comparison", JsonValue::Null)])) == SuggestionVerdict::Undecided);
    let none = object(vec![("impact_comparison", JsonValue::Array(vec![]))]);
    assert!(judge_simulation(&none) == SuggestionVerdict::Approve);
}

trait CloneValue {
    fn clone_value(&self) -> JsonValue;
}

impl CloneValue for JsonValue {
    fn clone_value(&self) -> JsonValue {
        match self {
            JsonValue::Object(m) => JsonValue::Object(m.iter().map(|(k, v)| (k.clone(), v.clone_value())).collect()),
            JsonValue::Array(a) => JsonValue::Array(a.iter().map(|v| v.clone_value()).collect()),
            JsonValue::String(s) => JsonValue::String(s.clone()),
            JsonValue::Bool(b) => JsonValue::Bool(*b),
            JsonValue::Null => JsonValue::Null,
            JsonValue::Number(JsonNumber::PosInt(n)) => JsonValue::Number(JsonNumber::PosInt(*n)),
            JsonValue::Number(JsonNumber::NegInt(n)) => JsonValue::Number(JsonNumber::NegInt(*n)),
            JsonValue::Number(JsonNumber::Float(f)) => JsonValue::Number(JsonNumber::Float(f.clone())),
        }
    }
}

#[test]
fn analysis_target_prefers_home_feed() {
    assert_eq!(choose_target_slug(&vec![]), None);
    assert_eq!(choose_target_slug(&vec!["a".to_string(), "home_feed".to_string()]).as_deref(), Some("home_feed"));
    assert_eq!(choose_target_slug(&vec!["b".to_string(), "a".to_string()]).as_deref(), Some("b"));
}

#[test]
fn stage_names_and_routes() {
    assert_eq!(CandleDynamicStage.name(), "candle_dynamic");
    assert_eq!(CollaborativeFilteringStage.name(), "collaborative_filtering");
    assert_eq!(ContentBasedStage.name(), "content_based");
    assert_eq!(DynamicDiversifiersStage.name(), "dynamic_diversifiers");
    assert_eq!(HybridStage.name(), "hybrid");
    assert!(matches!(HybridStage.input_type(), StageDataKind::ScoredItems));
    assert!(matches!(ContentBasedStage.output_type(), StageDataKind::ScoredItems));
    assert!(DynamicDiversifiersStage.route("genre") == DiversifierRoute::Genre);
    assert!(DynamicDiversifiersStage.route("mmr") == DiversifierRoute::PassThrough);
}

#[test]
fn symphony_keeps_its_configuration() {
    let s = DiscoverySymphony::new(Arc::new(17u32));
    assert_eq!(**s.config(), 17);
}

#[test]
fn keyed_table_insert_get_remove() {
    let mut t: KeyedTable<String, u8> = KeyedTable::new();
    t.insert("a".to_string(), 1);
    t.insert("b".to_string(), 2);
    t.insert("a".to_string(), 3);
    assert_eq!(t.len(), 2);
    assert_eq!(t.get(&"a".to_string()), Some(&3));
    assert_eq!(t.remove(&"a".to_string()), Some(3));
    assert_eq!(t.get(&"a".to_string()), None);
    assert_eq!(t.remove(&"zz".to_string()), None);
    assert_eq!(t.entries().len(), 1);
}

#[test]
fn text_helpers() {
    assert!(same_text("abc", "abc"));
    assert!(!same_text("abc", "abd"));
    assert!(starts_with("onnx_rank", "onnx_"));
    assert!(!starts_with("onn", "onnx_"));
    assert_eq!(replace_char("a_b_c", '_', ' '), "a b c");
}

#[test]
fn json_member_access() {
    let v = object(vec![("a", JsonValue::String("x".to_string())), ("n", JsonValue::Number(JsonNumber::PosInt(9)))]);
    assert_eq!(v.get("a").and_then(|x| x.as_str()), Some("x"));
    assert_eq!(v.get("n").and_then(|x| x.as_u64()), Some(9));
    assert!(v.get("zz").is_none());
    assert!(JsonValue::Null.is_null());
    let w = v.set_member("a".to_string(), JsonValue::Bool(true));
    assert!(matches!(w.get("a"), Some(JsonValue::Bool(true))));
    assert_eq!(w.get("n").and_then(|x| x.as_u64()), Some(9));
    let z = JsonValue::Null.set_member("k".to_string(), JsonValue::Null);
    assert!(matches!(z.get("k"), Some(JsonValue::Null)));
}

#[test]
fn scenario_cap_from_setting() {
    assert_eq!(scenario_cap_setting(None), 20);
    assert_eq!(scenario_cap_setting(Some(7)), 7);
    assert_eq!(scenario_cap_setting(Some(-1)), usize::MAX);
}
