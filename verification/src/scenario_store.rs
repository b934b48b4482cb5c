//! Stored scenarios: the rows the repository reads, the configuration of a
//! scenario with its default strategy, how a definition is parsed from it,
//! and the values a scenario creation or update writes.

use vstd::prelude::*;
use crate::json::JsonValue;
use crate::scenario::{PipelineDefinition, ScenarioDefinition, scenario_map, law_reload_last_definition_wins};
use crate::text::push_text;

verus! {

/// A stored scenario. `created_at` is in microseconds since the Unix epoch.
pub struct Scenario {
    pub id: i32,
    pub slug: String,
    pub name: String,
    pub description: Option<String>,
    pub category: Option<String>,
    pub target_kpi: String,
    pub maturity_rating: String,
    pub initial_display_limit: i32,
    pub scope: JsonValue,
    pub cache_ttl_seconds: i32,
    pub use_l2_cache: bool,
    pub created_at: i64,
}

/// A scenario with its primary strategy (its default pipeline).
pub struct ScenarioWithStrategy {
    pub scenario: Scenario,
    pub pipeline: PipelineDefinition,
    pub is_active: bool,
    pub priority: i32,
}

/// A scenario joined with its default rule and pipeline, as read. `pipeline`
/// is the pipeline definition column as JSON text; `created_at` is in
/// microseconds since the Unix epoch.
pub struct FlatScenarioRow {
    pub id: i32,
    pub slug: String,
    pub name: String,
    pub description: Option<String>,
    pub category: Option<String>,
    pub target_kpi: String,
    pub maturity_rating: String,
    pub initial_display_limit: i32,
    pub scope: JsonValue,
    pub cache_ttl_seconds: i32,
    pub use_l2_cache: bool,
    pub created_at: i64,
    pub pipeline: String,
    pub is_active: bool,
    pub priority: i32,
}

/// A pipeline with no stages and no fallback stages.
pub open spec fn is_empty_pipeline(p: PipelineDefinition) -> bool {
    p.stages@.len() == 0 && p.fallback_stages is None
}

impl FlatScenarioRow {
    /// The scenario with its strategy. `parsed_pipeline` is the row's pipeline
    /// column as parsed; one that does not parse gives the empty pipeline.
    pub fn into_scenario_with_strategy(self, parsed_pipeline: Option<PipelineDefinition>) -> (s: ScenarioWithStrategy)
        ensures
            s.scenario.id == self.id,
            s.scenario.slug == self.slug,
            s.scenario.name == self.name,
            s.scenario.description == self.description,
            s.scenario.category == self.category,
            s.scenario.target_kpi == self.target_kpi,
            s.scenario.maturity_rating == self.maturity_rating,
            s.scenario.initial_display_limit == self.initial_display_limit,
            s.scenario.scope == self.scope,
            s.scenario.cache_ttl_seconds == self.cache_ttl_seconds,
            s.scenario.use_l2_cache == self.use_l2_cache,
            s.scenario.created_at == self.created_at,
            match parsed_pipeline {
                Some(p) => s.pipeline == p,
                None => is_empty_pipeline(s.pipeline),
            },
            s.is_active == self.is_active,
            s.priority == self.priority,
    {
        let pipeline = match parsed_pipeline {
            Some(p) => p,
            None => PipelineDefinition { stages: Vec::new(), fallback_stages: None },
        };
        ScenarioWithStrategy {
            scenario: Scenario {
                id: self.id,
                slug: self.slug,
                name: self.name,
                description: self.description,
                category: self.category,
                target_kpi: self.target_kpi,
                maturity_rating: self.maturity_rating,
                initial_display_limit: self.initial_display_limit,
                scope: self.scope,
                cache_ttl_seconds: self.cache_ttl_seconds,
                use_l2_cache: self.use_l2_cache,
                created_at: self.created_at,
            },
            pipeline,
            is_active: self.is_active,
            priority: self.priority,
        }
    }
}

/// The definition a scenario configuration loads as: its settings and
/// default pipeline, not yet linked.
pub open spec fn definition_of<P>(config: ScenarioWithStrategy) -> ScenarioDefinition<P> {
    ScenarioDefinition {
        slug: config.scenario.slug,
        name: config.scenario.name,
        pipeline: config.pipeline,
        maturity_rating: config.scenario.maturity_rating,
        cache_ttl_seconds: config.scenario.cache_ttl_seconds,
        use_l2_cache: config.scenario.use_l2_cache,
        initial_display_limit: config.scenario.initial_display_limit,
        scope: config.scenario.scope,
        linked_pipeline: None,
    }
}

/// Law: the definition a stored configuration loads as keeps the
/// configuration's settings unchanged: its slug, name, pipeline, maturity
/// rating, cache settings, display limit and scope (so a scenario restricted to
/// some regions stays restricted after a reload); it is not yet linked.
pub proof fn law_definition_keeps_settings<P>(config: ScenarioWithStrategy)
    ensures
        definition_of::<P>(config).slug == config.scenario.slug,
        definition_of::<P>(config).name == config.scenario.name,
        definition_of::<P>(config).pipeline == config.pipeline,
        definition_of::<P>(config).maturity_rating == config.scenario.maturity_rating,
        definition_of::<P>(config).cache_ttl_seconds == config.scenario.cache_ttl_seconds,
        definition_of::<P>(config).use_l2_cache == config.scenario.use_l2_cache,
        definition_of::<P>(config).initial_display_limit == config.scenario.initial_display_limit,
        definition_of::<P>(config).scope == config.scenario.scope,
        definition_of::<P>(config).linked_pipeline is None,
{
}

/// The definitions a sequence of stored configurations loads as, in order.
pub open spec fn definitions_of<P>(configs: Seq<ScenarioWithStrategy>) -> Seq<ScenarioDefinition<P>> {
    configs.map_values(|c: ScenarioWithStrategy| definition_of::<P>(c))
}

/// Law: after a reload from stored configurations, the scenario served under a
/// slug carries the scope (and pipeline) of the last configuration stored
/// with that slug, so its region restriction is enforced as stored.
pub proof fn law_reload_keeps_scope<P>(configs: Seq<ScenarioWithStrategy>, i: int)
    requires
        0 <= i < configs.len(),
        forall|j: int| i < j < configs.len() ==> configs[j].scenario.slug@ != configs[i].scenario.slug@,
    ensures
        scenario_map(definitions_of::<P>(configs)).contains_key(configs[i].scenario.slug@),
        scenario_map(definitions_of::<P>(configs))[configs[i].scenario.slug@].scope == configs[i].scenario.scope,
        scenario_map(definitions_of::<P>(configs))[configs[i].scenario.slug@].pipeline == configs[i].pipeline,
{
    let defs = definitions_of::<P>(configs);
    let k = configs[i].scenario.slug@;
    assert(defs[i] == definition_of::<P>(configs[i]));
    assert forall|j: int| i < j < defs.len() implies defs[j].slug@ != k by {
        assert(defs[j] == definition_of::<P>(configs[j]));
    }
    law_reload_last_definition_wins(defs, k);
    assert(defs[i].slug@ == k);
}

/// Parse a scenario configuration into its (unlinked) definition.
pub fn parse_scenario<P>(config: ScenarioWithStrategy) -> (d: ScenarioDefinition<P>)
    ensures
        d == definition_of::<P>(config),
        d.slug == config.scenario.slug,
        d.name == config.scenario.name,
        d.pipeline == config.pipeline,
        d.maturity_rating == config.scenario.maturity_rating,
        d.cache_ttl_seconds == config.scenario.cache_ttl_seconds,
        d.use_l2_cache == config.scenario.use_l2_cache,
        d.initial_display_limit == config.scenario.initial_display_limit,
        d.scope == config.scenario.scope,
        d.linked_pipeline is None,
{
    ScenarioDefinition {
        slug: config.scenario.slug,
        name: config.scenario.name,
        pipeline: config.pipeline,
        maturity_rating: config.scenario.maturity_rating,
        cache_ttl_seconds: config.scenario.cache_ttl_seconds,
        use_l2_cache: config.scenario.use_l2_cache,
        initial_display_limit: config.scenario.initial_display_limit,
        scope: config.scenario.scope,
        linked_pipeline: None,
    }
}

/// The definitions of the scenario configurations read, in order.
pub fn definitions_from_configs<P>(configs: Vec<ScenarioWithStrategy>) -> (defs: Vec<ScenarioDefinition<P>>)
    ensures
        defs@.len() == configs@.len(),
        defs@ == definitions_of::<P>(configs@),
        forall|i: int| 0 <= i < defs@.len() ==> #[trigger] defs@[i] == definition_of::<P>(configs@[i]),
        forall|i: int| 0 <= i < defs@.len() ==> {
            &&& (#[trigger] defs@[i]).slug == configs@[i].scenario.slug
            &&& defs@[i].scope == configs@[i].scenario.scope
            &&& defs@[i].pipeline == configs@[i].pipeline
            &&& defs@[i].use_l2_cache == configs@[i].scenario.use_l2_cache
            &&& defs@[i].linked_pipeline is None
        },
{
    let ghost all = configs@;
    let total = configs.len();
    let mut defs: Vec<ScenarioDefinition<P>> = Vec::new();
    let mut n: usize = 0;
    for config in it: configs.into_iter()
        invariant
            it.seq() == all,
            n == it.index(),
            n <= all.len(),
            all.len() == total,
            defs@.len() == n,
            forall|i: int| 0 <= i < n ==> #[trigger] defs@[i] == definition_of::<P>(all[i]),
    {
        defs.push(parse_scenario(config));
        n += 1;
    }
    proof {
        assert(defs@ =~= definitions_of::<P>(all));
    }
    defs
}

/// What creating a scenario writes besides the request's own fields: its
/// target KPI ("retention" unless given), its initial display limit (5 unless
/// given), its scope (an empty object unless given), and the slug and name of
/// its default strategy pipeline.
pub struct ScenarioCreation {
    pub target_kpi: String,
    pub initial_display_limit: i32,
    pub scope: JsonValue,
    pub pipeline_slug: String,
    pub pipeline_name: String,
}

/// The empty JSON object.
pub open spec fn empty_object(v: JsonValue) -> bool {
    v matches JsonValue::Object(members) && members@.len() == 0
}

/// The values a scenario creation writes.
pub fn scenario_creation(
    slug: &str,
    name: &str,
    target_kpi: Option<&str>,
    initial_display_limit: Option<i32>,
    scope: Option<JsonValue>,
) -> (c: ScenarioCreation)
    ensures
        c.target_kpi@ == match target_kpi { Some(t) => t@, None => "retention"@ },
        c.initial_display_limit == match initial_display_limit { Some(l) => l, None => 5i32 },
        match scope { Some(s) => c.scope == s, None => empty_object(c.scope) },
        c.pipeline_slug@ == slug@ + "_strategy_v1"@,
        c.pipeline_name@ == name@ + " Strategy"@,
{
    let kpi = match target_kpi {
        Some(t) => String::from_str(t),
        None => String::from_str("retention"),
    };
    let limit: i32 = match initial_display_limit {
        Some(l) => l,
        None => 5,
    };
    let scope_value = match scope {
        Some(s) => s,
        None => JsonValue::Object(Vec::new()),
    };
    let mut pipeline_slug = String::from_str(slug);
    push_text(&mut pipeline_slug, "_strategy_v1");
    let mut pipeline_name = String::from_str(name);
    push_text(&mut pipeline_name, " Strategy");
    ScenarioCreation {
        target_kpi: kpi,
        initial_display_limit: limit,
        scope: scope_value,
        pipeline_slug,
        pipeline_name,
    }
}

/// Which statements a scenario update runs besides the update of the
/// scenario's own fields: the default pipeline is rewritten when a pipeline is
/// given, the default rule when a priority or an enabled flag is given.
pub struct ScenarioUpdateSteps {
    pub rewrite_pipeline: bool,
    pub update_default_rule: bool,
}

/// The statements a scenario update runs.
pub fn scenario_update_steps(has_pipeline: bool, priority: Option<i32>, enabled: Option<bool>) -> (s: ScenarioUpdateSteps)
    ensures
        s.rewrite_pipeline == has_pipeline,
        s.update_default_rule == (priority is Some || enabled is Some),
{
    ScenarioUpdateSteps {
        rewrite_pipeline: has_pipeline,
        update_default_rule: priority.is_some() || enabled.is_some(),
    }
}

} // verus!
