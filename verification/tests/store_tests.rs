use bongas_ai::json::JsonValue;
use bongas_ai::scenario::{PipelineDefinition, PipelineStageConfig, ScenarioDefinition};
use bongas_ai::scenario_store::{
    definitions_from_configs, parse_scenario, scenario_creation, scenario_update_steps, FlatScenarioRow,
};

fn row(slug: &str) -> FlatScenarioRow {
    FlatScenarioRow {
        id: 4,
        slug: slug.to_string(),
        name: "Home".to_string(),
        description: Some("d".to_string()),
        category: None,
        target_kpi: "retention".to_string(),
        maturity_rating: "PG".to_string(),
        initial_display_limit: 6,
        scope: JsonValue::Null,
        cache_ttl_seconds: 30,
        use_l2_cache: false,
        created_at: 99,
        pipeline: "{\"stages\": []}".to_string(),
        is_active: true,
        priority: 2,
    }
}

#[test]
fn unparsable_pipeline_becomes_empty() {
    let s = row("home").into_scenario_with_strategy(None);
    assert!(s.pipeline.stages.is_empty());
    assert!(s.pipeline.fallback_stages.is_none());
    assert_eq!(s.scenario.id, 4);
    assert_eq!(s.scenario.slug, "home");
    assert_eq!(s.scenario.maturity_rating, "PG");
    assert_eq!(s.scenario.created_at, 99);
    assert!(s.is_active);
    assert_eq!(s.priority, 2);
}

#[test]
fn parsed_pipeline_is_kept_and_definition_loaded() {
    let p = PipelineDefinition {
        stages: vec![PipelineStageConfig { stage_type: "onnx_rank".to_string(), params: "{}".to_string() }],
        fallback_stages: None,
    };
    let s = row("home").into_scenario_with_strategy(Some(p));
    assert_eq!(s.pipeline.stages.len(), 1);
    let d: ScenarioDefinition<u8> = parse_scenario(s);
    assert_eq!(d.slug, "home");
    assert_eq!(d.name, "Home");
    assert_eq!(d.maturity_rating, "PG");
    assert_eq!(d.cache_ttl_seconds, 30);
    assert!(!d.use_l2_cache);
    assert_eq!(d.initial_display_limit, 6);
    assert_eq!(d.pipeline.stages[0].stage_type, "onnx_rank");
    assert!(d.linked_pipeline.is_none());
}

#[test]
fn configs_load_in_order() {
    let configs = vec![row("a").into_scenario_with_strategy(None), row("b").into_scenario_with_strategy(None)];
    let defs: Vec<ScenarioDefinition<u8>> = definitions_from_configs(configs);
    assert_eq!(defs.len(), 2);
    assert_eq!(defs[0].slug, "a");
    assert_eq!(defs[1].slug, "b");
}

#[test]
fn creation_defaults_and_strategy_names() {
    let c = scenario_creation("trending", "Trending Now", None, None, None);
    assert_eq!(c.target_kpi, "retention");
    assert_eq!(c.initial_display_limit, 5);
    assert!(matches!(&c.scope, JsonValue::Object(m) if m.is_empty()));
    assert_eq!(c.pipeline_slug, "trending_strategy_v1");
    assert_eq!(c.pipeline_name, "Trending Now Strategy");
    let c = scenario_creation("x", "X", Some("ctr"), Some(12), Some(JsonValue::Null));
    assert_eq!(c.target_kpi, "ctr");
    assert_eq!(c.initial_display_limit, 12);
    assert!(matches!(c.scope, JsonValue::Null));
}

#[test]
fn update_steps_follow_given_fields() {
    let s = scenario_update_steps(false, None, None);
    assert!(!s.rewrite_pipeline && !s.update_default_rule);
    let s = scenario_update_steps(true, None, Some(false));
    assert!(s.rewrite_pipeline && s.update_default_rule);
    let s = scenario_update_steps(false, Some(3), None);
    assert!(!s.rewrite_pipeline && s.update_default_rule);
}
