use bongas_ai::json::{JsonNumber, JsonValue};
use bongas_ai::scenario::PipelineDefinition;
use bongas_ai::strategy::{evaluate_condition, evaluate_rule, group_rules_by_scenario, ActiveRule, ExecutionContext, StrategyResolver};

fn text(s: &str) -> JsonValue {
    JsonValue::String(s.to_string())
}

fn num(n: u64) -> JsonValue {
    JsonValue::Number(JsonNumber::PosInt(n))
}

fn object(members: Vec<(&str, JsonValue)>) -> JsonValue {
    JsonValue::Object(members.into_iter().map(|(k, v)| (k.to_string(), v)).collect())
}

fn ctx(device: Option<&str>, maturity: Option<&str>, hour: u32) -> ExecutionContext {
    ExecutionContext {
        user_id: None,
        profile_id: Some("p1".to_string()),
        device_type: device.map(|d| d.to_string()),
        maturity_rating: maturity.map(|m| m.to_string()),
        request_hour: hour,
    }
}

fn rule(id: i32, device: Option<&str>, maturity: Option<&str>, condition: JsonValue, pipeline: Option<u32>) -> ActiveRule<u32> {
    ActiveRule {
        id,
        priority: 0,
        device_type: device.map(|d| d.to_string()),
        maturity_rating: maturity.map(|m| m.to_string()),
        condition,
        pipeline_slug: format!("p{}", id),
        pipeline_definition: PipelineDefinition { stages: vec![], fallback_stages: None },
        pipeline,
    }
}

#[test]
fn empty_and_null_conditions_hold() {
    assert!(evaluate_condition(&object(vec![]), &ctx(None, None, 0)));
    assert!(evaluate_condition(&JsonValue::Null, &ctx(None, None, 0)));
    assert!(!evaluate_condition(&text("x"), &ctx(None, None, 0)));
    assert!(!evaluate_condition(&JsonValue::Array(vec![]), &ctx(None, None, 0)));
}

#[test]
fn context_clauses_compare_attributes() {
    let c = ctx(Some("tv"), None, 10);
    assert!(evaluate_condition(&object(vec![("context.device_type", text("tv"))]), &c));
    assert!(!evaluate_condition(&object(vec![("context.device_type", text("web"))]), &c));
    assert!(evaluate_condition(&object(vec![("context.maturity_rating", JsonValue::Null)]), &c));
    assert!(!evaluate_condition(&object(vec![("context.maturity_rating", text("PG"))]), &c));
    assert!(evaluate_condition(&object(vec![("context.profile_id", text("p1"))]), &c));
    assert!(!evaluate_condition(&object(vec![("context.unknown", text("p1"))]), &c));
    assert!(!evaluate_condition(
        &object(vec![("context.device_type", text("tv")), ("context.profile_id", text("p2"))]),
        &c
    ));
}

#[test]
fn hour_clauses() {
    assert!(evaluate_condition(&object(vec![("time.hour", num(10))]), &ctx(None, None, 10)));
    assert!(!evaluate_condition(&object(vec![("time.hour", num(11))]), &ctx(None, None, 10)));
    let day = object(vec![("time.hour_range", JsonValue::Array(vec![num(8), num(18)]))]);
    assert!(evaluate_condition(&day, &ctx(None, None, 8)));
    assert!(evaluate_condition(&day, &ctx(None, None, 18)));
    assert!(!evaluate_condition(&day, &ctx(None, None, 19)));
    let night = object(vec![("time.hour_range", JsonValue::Array(vec![num(22), num(4)]))]);
    assert!(evaluate_condition(&night, &ctx(None, None, 23)));
    assert!(evaluate_condition(&night, &ctx(None, None, 2)));
    assert!(!evaluate_condition(&night, &ctx(None, None, 12)));
    let open_end = object(vec![("time.hour_range", JsonValue::Array(vec![num(20), text("x")]))]);
    assert!(evaluate_condition(&open_end, &ctx(None, None, 23)));
    assert!(!evaluate_condition(&open_end, &ctx(None, None, 19)));
    let malformed = object(vec![("time.hour_range", JsonValue::Array(vec![num(3)]))]);
    assert!(evaluate_condition(&malformed, &ctx(None, None, 0)));
}

#[test]
fn rule_targeting_catch_alls() {
    let c = ctx(Some("tv"), Some("PG"), 0);
    assert!(evaluate_rule(&rule(1, None, None, object(vec![]), None), &c));
    assert!(evaluate_rule(&rule(1, Some("default"), Some("all"), object(vec![]), None), &c));
    assert!(evaluate_rule(&rule(1, Some("tv"), Some("PG"), object(vec![]), None), &c));
    assert!(!evaluate_rule(&rule(1, Some("web"), None, object(vec![]), None), &c));
    assert!(!evaluate_rule(&rule(1, None, Some("R"), object(vec![]), None), &c));
    assert!(!evaluate_rule(&rule(1, Some("tv"), None, text("bad"), None), &c));
    assert!(!evaluate_rule(&rule(1, Some("tv"), None, object(vec![]), None), &ctx(None, None, 0)));
}

#[test]
fn resolver_serves_first_applicable_linked_rule() {
    let mut r: StrategyResolver<u32> = StrategyResolver::new();
    assert!(r.resolve("home", &ctx(Some("tv"), None, 0)).is_none());
    r.update_rules(vec![
        ("movies".to_string(), vec![rule(9, None, None, object(vec![]), Some(90))]),
        (
            "home".to_string(),
            vec![
                rule(1, Some("web"), None, object(vec![]), Some(10)),
                rule(2, Some("tv"), None, object(vec![]), None),
                rule(3, Some("tv"), None, object(vec![]), Some(30)),
                rule(4, None, None, object(vec![]), Some(40)),
            ],
        ),
    ]);
    assert_eq!(r.resolve("home", &ctx(Some("tv"), None, 0)), Some(&30));
    assert_eq!(r.resolve("home", &ctx(Some("web"), None, 0)), Some(&10));
    assert_eq!(r.resolve("home", &ctx(Some("console"), None, 0)), Some(&40));
    assert_eq!(r.resolve("movies", &ctx(None, None, 0)), Some(&90));
    assert!(r.resolve("kids", &ctx(None, None, 0)).is_none());
}

#[test]
fn rules_group_by_scenario_in_row_order() {
    let rows = vec![
        ("home".to_string(), rule(1, None, None, JsonValue::Null, Some(1))),
        ("movies".to_string(), rule(2, None, None, JsonValue::Null, Some(2))),
        ("home".to_string(), rule(3, None, None, JsonValue::Null, Some(3))),
    ];
    let groups = group_rules_by_scenario(rows);
    assert!(groups.iter().all(|(_, g)| !g.is_empty()));
    let home = groups.iter().find(|(s, _)| s == "home").unwrap();
    assert_eq!(home.1.iter().map(|r| r.id).collect::<Vec<_>>(), vec![1, 3]);
    let movies = groups.iter().find(|(s, _)| s == "movies").unwrap();
    assert_eq!(movies.1.iter().map(|r| r.id).collect::<Vec<_>>(), vec![2]);
    let mut resolver = StrategyResolver::new();
    resolver.update_rules(groups);
    assert_eq!(resolver.resolve("home", &ctx(None, None, 0)), Some(&1));
}
