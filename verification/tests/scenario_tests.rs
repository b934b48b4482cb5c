use bongas_ai::json::{JsonNumber, JsonValue};
use bongas_ai::scenario::{
    cache_context, cached_outcome, check_scope, engine_execution_context, engine_run_outcome, execution_stats,
    link_definitions, plan_execution, plan_managed_execution, resolve_request_id, security_status, settle_pipeline,
    truncate_to_limit, writes_l2_cache, PipelineDefinition, PipelineStageConfig, RequestContext, ScenarioDefinition,
    ScenarioError, ScenarioId, ScenarioRegistry,
};
use bongas_ai::strategy::{ActiveRule, ExecutionContext, StrategyResolver};

fn text(s: &str) -> JsonValue {
    JsonValue::String(s.to_string())
}

fn object(members: Vec<(&str, JsonValue)>) -> JsonValue {
    JsonValue::Object(members.into_iter().map(|(k, v)| (k.to_string(), v)).collect())
}

fn stage(t: &str) -> PipelineStageConfig {
    PipelineStageConfig { stage_type: t.to_string(), params: "{}".to_string() }
}

fn definition(slug: &str, stages: Vec<&str>, scope: JsonValue) -> ScenarioDefinition<u32> {
    ScenarioDefinition {
        slug: slug.to_string(),
        name: slug.to_uppercase(),
        pipeline: PipelineDefinition { stages: stages.into_iter().map(stage).collect(), fallback_stages: None },
        maturity_rating: "GE".to_string(),
        cache_ttl_seconds: 60,
        use_l2_cache: true,
        initial_display_limit: 5,
        scope,
        linked_pipeline: None,
    }
}

fn context() -> ExecutionContext {
    ExecutionContext {
        user_id: Some(1),
        profile_id: None,
        device_type: Some("tv".to_string()),
        maturity_rating: None,
        request_hour: 12,
    }
}

#[test]
fn scenario_id_wraps_its_value() {
    assert_eq!(ScenarioId::new(42).get(), 42);
}

#[test]
fn security_status_always_enabled_with_eight_layers() {
    let s = security_status(false);
    assert!(!s.validated);
    assert!(s.security_enabled);
    assert_eq!(s.layers_configured, 8);
    assert!(security_status(true).validated);
}

#[test]
fn request_context_has_no_trace() {
    let r = RequestContext::new(context(), "rid".to_string(), "home".to_string(), Some(3));
    assert_eq!(r.request_id, "rid");
    assert_eq!(r.scenario_slug, "home");
    assert_eq!(r.user_id, Some(3));
    assert!(r.trace_id.is_none());
}

#[test]
fn request_id_is_kept_or_generated() {
    assert_eq!(resolve_request_id(Some("given".to_string())), "given");
    let a = resolve_request_id(None);
    let b = resolve_request_id(None);
    assert_eq!(a.len(), 36);
    for (i, c) in a.chars().enumerate() {
        if i == 8 || i == 13 || i == 18 || i == 23 {
            assert_eq!(c, '-');
        } else {
            assert!(c.is_ascii_digit() || ('a'..='f').contains(&c));
        }
    }
    assert_eq!(a.chars().nth(14), Some('4'));
    assert_ne!(a, b);
}

#[test]
fn scope_without_regions_admits_any_request() {
    assert!(check_scope(&JsonValue::Null, &object(vec![("region", text("KE"))])).is_ok());
    assert!(check_scope(&object(vec![]), &JsonValue::Null).is_ok());
    assert!(check_scope(&object(vec![("regions", text("KE"))]), &JsonValue::Null).is_ok());
}

#[test]
fn scope_with_regions_admits_listed_region() {
    let scope = object(vec![("regions", JsonValue::Array(vec![text("UG"), text("KE")]))]);
    assert!(check_scope(&scope, &object(vec![("region", text("KE"))])).is_ok());
}

#[test]
fn scope_with_regions_refuses_other_region() {
    let scope = object(vec![("regions", JsonValue::Array(vec![text("UG"), text("KE")]))]);
    match check_scope(&scope, &object(vec![("region", text("TZ"))])) {
        Err(ScenarioError::InvalidConfig(m)) => assert_eq!(m, "Scenario not available in region: TZ"),
        _ => panic!("expected a refusal"),
    }
    match check_scope(&scope, &JsonValue::Null) {
        Err(ScenarioError::InvalidConfig(m)) => assert_eq!(m, "Scenario not available in region: UNKNOWN"),
        _ => panic!("expected a refusal"),
    }
    let unknown_listed = object(vec![("regions", JsonValue::Array(vec![text("UNKNOWN")]))]);
    assert!(check_scope(&unknown_listed, &JsonValue::Null).is_ok());
}

#[test]
fn stats_count_onnx_stages() {
    let p = PipelineDefinition {
        stages: vec![stage("onnx_ranker"), stage("candle_embed"), stage("onnx_two"), stage("filter")],
        fallback_stages: None,
    };
    let s = execution_stats("home", &p);
    assert_eq!(s.scenario_slug, "home");
    assert_eq!(s.pipeline_stage_count, 4);
    assert_eq!(s.onnx_stage_count, 2);
    assert!(s.uses_onnx_inference);
    assert_eq!(s.execution_time_ms, 0);
    assert!(!s.cached_result);
    let plain = PipelineDefinition { stages: vec![stage("filter")], fallback_stages: None };
    let s = execution_stats("x", &plain);
    assert!(!s.uses_onnx_inference);
    assert_eq!(s.onnx_stage_count, 0);
}

#[test]
fn registry_reload_last_definition_wins() {
    let mut r: ScenarioRegistry<u32> = ScenarioRegistry::new();
    let mut last_home = definition("home", vec!["a", "b", "c"], JsonValue::Null);
    last_home.linked_pipeline = Some(7);
    r.replace_all(vec![
        definition("home", vec!["a"], JsonValue::Null),
        definition("movies", vec![], JsonValue::Null),
        last_home,
    ]);
    assert_eq!(r.scenario_count(), 2);
    assert_eq!(r.definition("home").unwrap().pipeline.stages.len(), 3);
    assert_eq!(r.linked_pipeline("home"), Some(&7));
    assert_eq!(r.linked_pipeline("movies"), None);
    let mut slugs = r.list_scenarios();
    slugs.sort();
    assert_eq!(slugs, vec!["home".to_string(), "movies".to_string()]);
}

#[test]
fn registry_install_and_remove() {
    let mut r: ScenarioRegistry<u32> = ScenarioRegistry::new();
    r.install(definition("home", vec![], JsonValue::Null), Some(1));
    r.install(definition("home", vec!["x"], JsonValue::Null), None);
    assert_eq!(r.definition("home").unwrap().pipeline.stages.len(), 1);
    assert_eq!(r.linked_pipeline("home"), Some(&1));
    r.install(definition("home", vec![], JsonValue::Null), Some(2));
    assert_eq!(r.linked_pipeline("home"), Some(&2));
    r.install(definition("fresh", vec![], JsonValue::Null), None);
    assert!(r.definition("fresh").is_some());
    assert!(r.linked_pipeline("fresh").is_none());
    assert!(r.remove("fresh"));
    assert!(r.remove("home"));
    assert!(!r.remove("home"));
    assert!(r.definition("home").is_none());
    assert!(r.linked_pipeline("home").is_none());
    assert_eq!(r.scenario_count(), 0);
}

#[test]
fn plan_refuses_unknown_scenario() {
    let r: ScenarioRegistry<u32> = ScenarioRegistry::new();
    let resolver: StrategyResolver<u32> = StrategyResolver::new();
    match plan_execution(&r, &resolver, "nope", &context(), &JsonValue::Null) {
        Err(ScenarioError::NotFound(m)) => assert_eq!(m, "nope"),
        _ => panic!("expected not found"),
    }
}

#[test]
fn plan_refuses_out_of_scope_request() {
    let mut r: ScenarioRegistry<u32> = ScenarioRegistry::new();
    let scope = object(vec![("regions", JsonValue::Array(vec![text("KE")]))]);
    r.install(definition("home", vec![], scope), None);
    let resolver: StrategyResolver<u32> = StrategyResolver::new();
    match plan_execution(&r, &resolver, "home", &context(), &object(vec![("region", text("NG"))])) {
        Err(ScenarioError::InvalidConfig(m)) => assert_eq!(m, "Scenario not available in your region"),
        _ => panic!("expected a scope refusal"),
    }
    match plan_managed_execution(&r, "home", &object(vec![("region", text("NG"))])) {
        Err(ScenarioError::InvalidConfig(m)) => assert_eq!(m, "Scenario not available in region: NG"),
        _ => panic!("expected a scope refusal"),
    }
    match plan_managed_execution(&r, "nope", &JsonValue::Null) {
        Err(ScenarioError::NotFound(m)) => assert_eq!(m, "nope"),
        _ => panic!("expected not found"),
    }
    let plan = plan_managed_execution(&r, "home", &object(vec![("region", text("KE"))])).ok().unwrap();
    assert!(plan.pipeline.is_none());
    assert_eq!(plan.stats.scenario_slug, "home");
}

fn stats() -> bongas_ai::scenario::ScenarioExecutionStats {
    execution_stats("home", &PipelineDefinition { stages: vec![stage("onnx_a"), stage("b")], fallback_stages: None })
}

#[test]
fn pipeline_failure_becomes_execution_failed() {
    match settle_pipeline::<u8>(stats(), Err("boom".to_string()), 5) {
        Err(ScenarioError::ExecutionFailed(m)) => assert_eq!(m, "Pipeline execution failed: boom"),
        _ => panic!("expected an execution failure"),
    }
    let (items, s) = settle_pipeline(stats(), Ok(vec![3u8, 1, 2]), 9).ok().unwrap();
    assert_eq!(items, vec![3, 1, 2]);
    assert!(!s.cached_result);
    assert_eq!(s.execution_time_ms, 9);
    assert_eq!(s.pipeline_stage_count, 2);
    assert_eq!(s.onnx_stage_count, 1);
}

#[test]
fn cached_results_only_with_l2_cache() {
    assert!(cached_outcome(stats(), false, Some(vec![1u8]), 3).is_none());
    assert!(cached_outcome::<u8>(stats(), true, None, 3).is_none());
    let (items, s) = cached_outcome(stats(), true, Some(vec![1u8, 2, 3]), 3).unwrap();
    assert_eq!(items, vec![1, 2, 3]);
    assert!(s.cached_result);
    assert_eq!(s.execution_time_ms, 3);
    let (items, s) = engine_run_outcome(stats(), vec![1u8, 2, 3], 11, Some(2));
    assert_eq!(items, vec![1, 2]);
    assert!(!s.cached_result);
    assert_eq!(s.execution_time_ms, 11);
    let mut d = definition("home", vec![], JsonValue::Null);
    assert!(writes_l2_cache(&d));
    d.use_l2_cache = false;
    assert!(!writes_l2_cache(&d));
}

#[test]
fn failed_links_stay_loaded_unlinked() {
    let defs = link_definitions(
        vec![definition("a", vec![], JsonValue::Null), definition("b", vec![], JsonValue::Null)],
        vec![Some(4u32), None],
    );
    assert_eq!(defs.len(), 2);
    assert_eq!(defs[0].linked_pipeline, Some(4));
    assert_eq!(defs[1].linked_pipeline, None);
    let mut r: ScenarioRegistry<u32> = ScenarioRegistry::new();
    r.replace_all(defs);
    assert_eq!(r.scenario_count(), 2);
    assert_eq!(r.linked_pipeline("a"), Some(&4));
    assert!(r.linked_pipeline("b").is_none());
    assert!(r.definition("b").is_some());
}

#[test]
fn plan_prefers_resolved_strategy_over_linked_pipeline() {
    let mut r: ScenarioRegistry<u32> = ScenarioRegistry::new();
    r.install(definition("home", vec!["onnx_x"], JsonValue::Null), Some(1));
    let mut resolver: StrategyResolver<u32> = StrategyResolver::new();
    let linked = plan_execution(&r, &resolver, "home", &context(), &JsonValue::Null).ok().unwrap();
    assert_eq!(linked.pipeline, Some(&1));
    assert_eq!(linked.stats.onnx_stage_count, 1);
    resolver.update_rules(vec![(
        "home".to_string(),
        vec![ActiveRule {
            id: 1,
            priority: 10,
            device_type: Some("tv".to_string()),
            maturity_rating: None,
            condition: object(vec![]),
            pipeline_slug: "tv_strategy".to_string(),
            pipeline_definition: PipelineDefinition { stages: vec![], fallback_stages: None },
            pipeline: Some(2),
        }],
    )]);
    let plan = plan_execution(&r, &resolver, "home", &context(), &JsonValue::Null).ok().unwrap();
    assert_eq!(plan.pipeline, Some(&2));
    assert_eq!(plan.scenario.slug, "home");
}

#[test]
fn plan_without_any_pipeline_runs_dynamically() {
    let mut r: ScenarioRegistry<u32> = ScenarioRegistry::new();
    r.install(definition("home", vec![], JsonValue::Null), None);
    let resolver: StrategyResolver<u32> = StrategyResolver::new();
    let plan = plan_execution(&r, &resolver, "home", &context(), &JsonValue::Null).ok().unwrap();
    assert!(plan.pipeline.is_none());
}

#[test]
fn truncation_keeps_a_prefix() {
    assert_eq!(truncate_to_limit(vec![1, 2, 3], Some(2)), vec![1, 2]);
    assert_eq!(truncate_to_limit(vec![1, 2, 3], Some(5)), vec![1, 2, 3]);
    assert_eq!(truncate_to_limit(vec![1, 2, 3], Some(0)), Vec::<i32>::new());
    assert_eq!(truncate_to_limit(vec![1, 2, 3], None), vec![1, 2, 3]);
}

#[test]
fn cache_context_sets_given_members() {
    let params = object(vec![("region", text("KE")), ("device_type", text("web"))]);
    let c = cache_context(params, Some("p1".to_string()), None, Some("tv".to_string()));
    assert!(matches!(c.get("region"), Some(JsonValue::String(s)) if s.as_str() == "KE"));
    assert!(matches!(c.get("device_type"), Some(JsonValue::String(s)) if s.as_str() == "tv"));
    assert!(matches!(c.get("profile_id"), Some(JsonValue::String(s)) if s.as_str() == "p1"));
    assert!(c.get("maturity_rating").is_none());
    let unchanged = cache_context(JsonValue::Number(JsonNumber::PosInt(3)), None, None, None);
    assert!(matches!(unchanged, JsonValue::Number(JsonNumber::PosInt(3))));
    let from_null = cache_context(JsonValue::Null, None, Some("PG".to_string()), None);
    assert!(matches!(from_null.get("maturity_rating"), Some(JsonValue::String(s)) if s.as_str() == "PG"));
}

#[test]
fn engine_context_defaults() {
    let params = object(vec![("device_type", text("web"))]);
    let c = engine_execution_context(Some(5), None, None, None, &params, 7);
    assert_eq!(c.user_id, Some(5));
    assert_eq!(c.profile_id.as_deref(), Some(""));
    assert_eq!(c.maturity_rating.as_deref(), Some("GE"));
    assert_eq!(c.device_type.as_deref(), Some("web"));
    assert_eq!(c.request_hour, 7);
    let c = engine_execution_context(None, Some("p".to_string()), Some("PG".to_string()), Some("tv".to_string()), &params, 0);
    assert_eq!(c.profile_id.as_deref(), Some("p"));
    assert_eq!(c.maturity_rating.as_deref(), Some("PG"));
    assert_eq!(c.device_type.as_deref(), Some("tv"));
    let c = engine_execution_context(None, None, None, None, &JsonValue::Null, 0);
    assert_eq!(c.device_type.as_deref(), Some(""));
}

#[test]
fn error_messages_as_the_engine_reports_them() {
    assert_eq!(ScenarioError::NotFound("home".to_string()).message(), "Scenario 'home' not found");
    assert_eq!(ScenarioError::InvalidConfig("bad".to_string()).message(), "bad");
    assert_eq!(ScenarioError::ExecutionFailed("x".to_string()).message(), "x");
}
