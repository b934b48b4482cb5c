//! Scenario definitions and the decisions of scenario execution: scope
//! enforcement, execution statistics, pipeline selection, the cap on active
//! scenarios, and the registry of loaded scenarios.

use vstd::prelude::*;
use crate::json::{JsonValue, json_get, json_as_str, member_lookup, lemma_lookup_members_with};
use crate::strategy::{ExecutionContext, StrategyResolver, resolution};
use crate::table::KeyedTable;
use crate::text::{has_prefix, push_text, starts_with};

verus! {

/// Database identifier of a scenario.
pub struct ScenarioId(i32);

impl ScenarioId {
    /// Wrap a database identifier.
    pub fn new(id: i32) -> (r: Self)
        ensures
            r.id() == id,
    {
        ScenarioId(id)
    }

    /// The wrapped identifier.
    pub closed spec fn id(&self) -> i32 {
        self.0
    }

    /// The wrapped identifier.
    pub fn get(&self) -> (id: i32)
        ensures
            id == self.id(),
    {
        self.0
    }
}

/// Errors of scenario execution.
pub enum ScenarioError {
    NotFound(String),
    InvalidConfig(String),
    ExecutionFailed(String),
}

/// The text the engine reports for an error: "Scenario '<slug>' not found"
/// for an unknown scenario, the message itself otherwise.
pub open spec fn scenario_error_text(e: ScenarioError) -> Seq<char> {
    match e {
        ScenarioError::NotFound(slug) => "Scenario '"@ + slug@ + "' not found"@,
        ScenarioError::InvalidConfig(m) => m@,
        ScenarioError::ExecutionFailed(m) => m@,
    }
}

impl ScenarioError {
    /// The text the engine reports for this error.
    pub fn message(&self) -> (text: String)
        ensures
            text@ == scenario_error_text(*self),
    {
        match self {
            ScenarioError::NotFound(slug) => {
                let mut text = String::from_str("Scenario '");
                push_text(&mut text, slug.as_str());
                push_text(&mut text, "' not found");
                proof {
                    assert(text@ =~= scenario_error_text(*self));
                }
                text
            },
            ScenarioError::InvalidConfig(m) => m.clone(),
            ScenarioError::ExecutionFailed(m) => m.clone(),
        }
    }
}

/// One stage of a pipeline definition: its type tag and its parameters as
/// JSON text.
pub struct PipelineStageConfig {
    pub stage_type: String,
    pub params: String,
}

/// Typed representation of a pipeline: its stages and optional fallbacks.
pub struct PipelineDefinition {
    pub stages: Vec<PipelineStageConfig>,
    pub fallback_stages: Option<Vec<PipelineStageConfig>>,
}

/// A loaded scenario. `P` is the linked (executable) pipeline.
pub struct ScenarioDefinition<P> {
    pub slug: String,
    pub name: String,
    pub pipeline: PipelineDefinition,
    pub maturity_rating: String,
    pub cache_ttl_seconds: i32,
    pub use_l2_cache: bool,
    pub initial_display_limit: i32,
    pub scope: JsonValue,
    pub linked_pipeline: Option<P>,
}

/// Statistics of one scenario execution.
pub struct ScenarioExecutionStats {
    pub scenario_slug: String,
    pub uses_onnx_inference: bool,
    pub pipeline_stage_count: usize,
    pub onnx_stage_count: usize,
    pub execution_time_ms: u64,
    pub cached_result: bool,
}

/// Security status reported by the engine.
pub struct SecurityStatus {
    pub validated: bool,
    pub security_enabled: bool,
    pub layers_configured: u32,
}

/// The security status for a validation outcome: security is always enabled,
/// with eight configured layers.
pub fn security_status(validated: bool) -> (s: SecurityStatus)
    ensures
        s.validated == validated,
        s.security_enabled,
        s.layers_configured == 8,
{
    SecurityStatus { validated, security_enabled: true, layers_configured: 8 }
}

/// Engine-level request context wrapping the rule-evaluation context with
/// metadata for tracing and analytics.
pub struct RequestContext {
    pub execution_context: ExecutionContext,
    pub request_id: String,
    pub scenario_slug: String,
    pub user_id: Option<i32>,
    pub trace_id: Option<String>,
}

impl RequestContext {
    /// A request context without a trace id.
    pub fn new(
        execution_context: ExecutionContext,
        request_id: String,
        scenario_slug: String,
        user_id: Option<i32>,
    ) -> (r: Self)
        ensures
            r.execution_context == execution_context,
            r.request_id == request_id,
            r.scenario_slug == scenario_slug,
            r.user_id == user_id,
            r.trace_id is None,
    {
        RequestContext { execution_context, request_id, scenario_slug, user_id, trace_id: None }
    }
}

/// A lower-case hexadecimal digit.
pub open spec fn is_lower_hex(c: char) -> bool {
    ('0' <= c && c <= '9') || ('a' <= c && c <= 'f')
}

/// The hyphenated text of a version 4 UUID: 36 characters, hyphens at
/// positions 8, 13, 18 and 23, lower-case hexadecimal digits elsewhere, and
/// the version digit 4 at position 14.
pub open spec fn is_hyphenated_v4(s: Seq<char>) -> bool {
    &&& s.len() == 36
    &&& forall|i: int| 0 <= i < 36 ==> if i == 8 || i == 13 || i == 18 || i == 23 {
        #[trigger] s[i] == '-'
    } else {
        is_lower_hex(s[i])
    }
    &&& s[14] == '4'
}

/// A fresh random request identifier: `uuid::Uuid::new_v4` rendered with
/// `to_string`, which uuid writes in the hyphenated lower-case form. Which
/// identifier comes back is random and not stated.
#[verifier::external_body]
fn random_request_id() -> (id: String)
    ensures
        is_hyphenated_v4(id@),
{
    uuid::Uuid::new_v4().to_string()
}

/// The request identifier to use: the one given, or a fresh random one.
pub fn resolve_request_id(given: Option<String>) -> (id: String)
    ensures
        given matches Some(g) ==> id == g,
        given is None ==> is_hyphenated_v4(id@),
{
    match given {
        Some(g) => g,
        None => random_request_id(),
    }
}

/// The region a request comes from: the `region` text of its context
/// parameters, or "UNKNOWN".
pub open spec fn requested_region(params: JsonValue) -> Seq<char> {
    match json_get(params, "region"@) {
        Some(v) => match json_as_str(v) {
            Some(s) => s,
            None => "UNKNOWN"@,
        },
        None => "UNKNOWN"@,
    }
}

/// A scope admits a request unless it lists `regions` (an array) and none of
/// them is the requested region.
pub open spec fn scope_admits(scope: JsonValue, params: JsonValue) -> bool {
    match json_get(scope, "regions"@) {
        Some(JsonValue::Array(allowed)) => exists|i: int|
            0 <= i < allowed@.len() && #[trigger] json_as_str(allowed@[i]) == Some(requested_region(params)),
        _ => true,
    }
}

/// The message of a scope refusal.
pub open spec fn region_refusal(params: JsonValue) -> Seq<char> {
    "Scenario not available in region: "@ + requested_region(params)
}

/// Enforce a scenario's scope: refuse requests from regions it does not list.
pub fn check_scope(scope: &JsonValue, context_params: &JsonValue) -> (r: Result<(), ScenarioError>)
    ensures
        r is Ok == scope_admits(*scope, *context_params),
        r is Err ==> (r matches Err(ScenarioError::InvalidConfig(m)) && m@ == region_refusal(*context_params)),
{
    let region: &str = match context_params.get("region") {
        Some(v) => match v.as_str() {
            Some(s) => s,
            None => "UNKNOWN",
        },
        None => "UNKNOWN",
    };
    match scope.get("regions") {
        Some(regions) => match regions.as_array() {
            Some(allowed) => {
                let mut i: usize = 0;
                while i < allowed.len()
                    invariant
                        i <= allowed.len(),
                        *regions == JsonValue::Array(*allowed),
                        json_get(*scope, "regions"@) == Some(*regions),
                        region@ == requested_region(*context_params),
                        forall|j: int| 0 <= j < i ==> #[trigger] json_as_str(allowed@[j]) != Some(region@),
                    decreases allowed.len() - i,
                {
                    match allowed[i].as_str() {
                        Some(s) => {
                            if crate::text::same_text(s, region) {
                                proof {
                                    assert(json_as_str(allowed@[i as int]) == Some(requested_region(*context_params)));
                                }
                                return Ok(());
                            }
                        },
                        None => {},
                    }
                    i += 1;
                }
                let mut message = String::from_str("Scenario not available in region: ");
                push_text(&mut message, region);
                Err(ScenarioError::InvalidConfig(message))
            },
            None => Ok(()),
        },
        None => Ok(()),
    }
}

/// Whether a stage runs ONNX inference (its type starts with "onnx_").
pub open spec fn is_onnx_stage(stage: PipelineStageConfig) -> bool {
    has_prefix(stage.stage_type@, "onnx_"@)
}

/// Number of ONNX stages.
pub open spec fn onnx_stage_total(stages: Seq<PipelineStageConfig>) -> nat
    decreases stages.len(),
{
    if stages.len() == 0 {
        0
    } else {
        onnx_stage_total(stages.drop_last()) + if is_onnx_stage(stages.last()) { 1nat } else { 0nat }
    }
}

proof fn lemma_onnx_total_bounds(stages: Seq<PipelineStageConfig>)
    ensures
        onnx_stage_total(stages) <= stages.len(),
        onnx_stage_total(stages) > 0 <==> exists|i: int| 0 <= i < stages.len() && #[trigger] is_onnx_stage(stages[i]),
    decreases stages.len(),
{
    if stages.len() > 0 {
        let prefix = stages.drop_last();
        lemma_onnx_total_bounds(prefix);
        if exists|i: int| 0 <= i < stages.len() && #[trigger] is_onnx_stage(stages[i]) {
            let i = choose|i: int| 0 <= i < stages.len() && #[trigger] is_onnx_stage(stages[i]);
            if i < stages.len() - 1 {
                assert(prefix[i] == stages[i]);
            }
        }
        if exists|i: int| 0 <= i < prefix.len() && #[trigger] is_onnx_stage(prefix[i]) {
            let i = choose|i: int| 0 <= i < prefix.len() && #[trigger] is_onnx_stage(prefix[i]);
            assert(prefix[i] == stages[i]);
        }
    }
}

/// The statistics of a scenario before its pipeline runs: stage counts and
/// whether ONNX inference is used; no time spent, not a cached result.
pub open spec fn fresh_stats(stats: ScenarioExecutionStats, scenario_slug: Seq<char>, pipeline: PipelineDefinition) -> bool {
    &&& stats.scenario_slug@ == scenario_slug
    &&& stats.pipeline_stage_count == pipeline.stages@.len()
    &&& stats.onnx_stage_count == onnx_stage_total(pipeline.stages@)
    &&& stats.uses_onnx_inference == exists|i: int|
        0 <= i < pipeline.stages@.len() && #[trigger] is_onnx_stage(pipeline.stages@[i])
    &&& stats.execution_time_ms == 0
    &&& !stats.cached_result
}

/// Execution statistics before the pipeline runs: stage counts and whether
/// ONNX inference is used; no time spent, not a cached result.
pub fn execution_stats(scenario_slug: &str, pipeline: &PipelineDefinition) -> (stats: ScenarioExecutionStats)
    ensures
        fresh_stats(stats, scenario_slug@, *pipeline),
        stats.uses_onnx_inference <==> stats.onnx_stage_count > 0,
        stats.onnx_stage_count <= stats.pipeline_stage_count,
{
    let stages = &pipeline.stages;
    let mut count: usize = 0;
    let mut i: usize = 0;
    while i < stages.len()
        invariant
            i <= stages.len(),
            count == onnx_stage_total(stages@.take(i as int)),
            count <= i,
        decreases stages.len() - i,
    {
        proof {
            assert(stages@.take(i + 1int).drop_last() =~= stages@.take(i as int));
            assert(stages@.take(i + 1int).last() == stages@[i as int]);
        }
        if starts_with(stages[i].stage_type.as_str(), "onnx_") {
            count += 1;
        }
        i += 1;
    }
    proof {
        assert(stages@.take(stages@.len() as int) =~= stages@);
        lemma_onnx_total_bounds(stages@);
    }
    ScenarioExecutionStats {
        scenario_slug: String::from_str(scenario_slug),
        uses_onnx_inference: count > 0,
        pipeline_stage_count: stages.len(),
        onnx_stage_count: count,
        execution_time_ms: 0,
        cached_result: false,
    }
}

/// The map from slug to definition that loading `defs` in order gives (a
/// later definition of a slug replaces an earlier one).
pub open spec fn scenario_map<P>(defs: Seq<ScenarioDefinition<P>>) -> Map<Seq<char>, ScenarioDefinition<P>>
    decreases defs.len(),
{
    if defs.len() == 0 {
        Map::empty()
    } else {
        scenario_map(defs.drop_last()).insert(defs.last().slug@, defs.last())
    }
}

/// Law: after a full reload the registry holds exactly the slugs loaded, and
/// serves for each slug the last definition loaded with it.
pub proof fn law_reload_last_definition_wins<P>(defs: Seq<ScenarioDefinition<P>>, k: Seq<char>)
    ensures
        scenario_map(defs).contains_key(k) <==> exists|i: int| 0 <= i < defs.len() && #[trigger] defs[i].slug@ == k,
        forall|i: int|
            0 <= i < defs.len() && #[trigger] defs[i].slug@ == k
            && (forall|j: int| i < j < defs.len() ==> defs[j].slug@ != k)
            ==> scenario_map(defs)[k] == defs[i],
    decreases defs.len(),
{
    if defs.len() > 0 {
        let prefix = defs.drop_last();
        law_reload_last_definition_wins(prefix, k);
        let n = defs.len() - 1;
        if defs.last().slug@ != k {
            assert((exists|i: int| 0 <= i < defs.len() && #[trigger] defs[i].slug@ == k)
                <==> (exists|i: int| 0 <= i < prefix.len() && #[trigger] prefix[i].slug@ == k)) by {
                if exists|i: int| 0 <= i < defs.len() && #[trigger] defs[i].slug@ == k {
                    let i = choose|i: int| 0 <= i < defs.len() && #[trigger] defs[i].slug@ == k;
                    assert(i < n);
                    assert(prefix[i] == defs[i]);
                }
                if exists|i: int| 0 <= i < prefix.len() && #[trigger] prefix[i].slug@ == k {
                    let i = choose|i: int| 0 <= i < prefix.len() && #[trigger] prefix[i].slug@ == k;
                    assert(prefix[i] == defs[i]);
                }
            }
            assert forall|i: int|
                0 <= i < defs.len() && #[trigger] defs[i].slug@ == k
                && (forall|j: int| i < j < defs.len() ==> defs[j].slug@ != k)
                implies scenario_map(defs)[k] == defs[i] by {
                assert(prefix[i] == defs[i]);
                assert forall|j: int| i < j < prefix.len() implies prefix[j].slug@ != k by {
                    assert(prefix[j] == defs[j]);
                }
            }
        } else {
            assert(defs[n].slug@ == k);
            assert forall|i: int|
                0 <= i < defs.len() && #[trigger] defs[i].slug@ == k
                && (forall|j: int| i < j < defs.len() ==> defs[j].slug@ != k)
                implies scenario_map(defs)[k] == defs[i] by {
                if i < n {
                    assert(defs[n].slug@ != k);
                }
            }
        }
    }
}

/// The linked pipelines of a set of loaded scenarios: each scenario that
/// holds one, by slug.
pub open spec fn links_of<P>(defs: Map<Seq<char>, ScenarioDefinition<P>>) -> Map<Seq<char>, P> {
    Map::new(
        |k: Seq<char>| defs.contains_key(k) && defs[k].linked_pipeline is Some,
        |k: Seq<char>| defs[k].linked_pipeline->0,
    )
}

/// The scenarios loaded in the engine. A scenario whose pipeline linked holds
/// it in `linked_pipeline`; one that failed to link stays loaded, unlinked.
pub struct ScenarioRegistry<P> {
    scenarios: KeyedTable<String, ScenarioDefinition<P>>,
}

impl<P> ScenarioRegistry<P> {
    /// Internal consistency: unique keys, each definition stored under its slug.
    pub closed spec fn wf(&self) -> bool {
        &&& self.scenarios.wf()
        &&& forall|k: Seq<char>| #[trigger] self.scenarios@.contains_key(k) ==> self.scenarios@[k].slug@ == k
    }

    /// The loaded scenarios by slug.
    pub closed spec fn definitions(&self) -> Map<Seq<char>, ScenarioDefinition<P>> {
        self.scenarios@
    }

    /// The linked pipelines by scenario slug.
    pub open spec fn linked_pipelines(&self) -> Map<Seq<char>, P> {
        links_of(self.definitions())
    }

    /// An empty registry.
    pub fn new() -> (r: Self)
        ensures
            r.wf(),
            r.definitions() == Map::<Seq<char>, ScenarioDefinition<P>>::empty(),
    {
        ScenarioRegistry { scenarios: KeyedTable::new() }
    }

    /// Replace every loaded scenario (a full reload); each definition carries
    /// its linked pipeline, if linking succeeded.
    pub fn replace_all(&mut self, defs: Vec<ScenarioDefinition<P>>)
        ensures
            final(self).wf(),
            final(self).definitions() == scenario_map(defs@),
    {
        let ghost all_defs = defs@;
        let defs_total = defs.len();
        let mut scenarios: KeyedTable<String, ScenarioDefinition<P>> = KeyedTable::new();
        let mut n: usize = 0;
        for def in it: defs.into_iter()
            invariant
                it.seq() == all_defs,
                n == it.index(),
                n <= all_defs.len(),
                all_defs.len() == defs_total,
                scenarios.wf(),
                scenarios@ == scenario_map(all_defs.take(n as int)),
                forall|k: Seq<char>| #[trigger] scenarios@.contains_key(k) ==> scenarios@[k].slug@ == k,
        {
            proof {
                assert(all_defs.take(n + 1int).drop_last() =~= all_defs.take(n as int));
                assert(all_defs.take(n + 1int).last() == all_defs[n as int]);
            }
            let key = def.slug.clone();
            scenarios.insert(key, def);
            n += 1;
        }
        proof {
            assert(all_defs.take(all_defs.len() as int) =~= all_defs);
        }
        self.scenarios = scenarios;
    }

    /// Install a reloaded scenario. When linking succeeded it carries the new
    /// pipeline; when it failed, the pipeline the scenario had linked before
    /// (if any) stays in use.
    pub fn install(&mut self, def: ScenarioDefinition<P>, linked: Option<P>)
        requires
            old(self).wf(),
        ensures
            final(self).wf(),
            final(self).definitions() == old(self).definitions().insert(def.slug@, ScenarioDefinition {
                linked_pipeline: match linked {
                    Some(p) => Some(p),
                    None => if old(self).definitions().contains_key(def.slug@) {
                        old(self).definitions()[def.slug@].linked_pipeline
                    } else {
                        None
                    },
                },
                ..def
            }),
            final(self).linked_pipelines() == match linked {
                Some(p) => old(self).linked_pipelines().insert(def.slug@, p),
                None => old(self).linked_pipelines(),
            },
    {
        let key = def.slug.clone();
        let previous = self.scenarios.remove(&key);
        let kept: Option<P> = match linked {
            Some(p) => Some(p),
            None => match previous {
                Some(old_def) => old_def.linked_pipeline,
                None => None,
            },
        };
        let updated = ScenarioDefinition { linked_pipeline: kept, ..def };
        self.scenarios.insert(key, updated);
        proof {
            let slug = def.slug@;
            let before = old(self).definitions();
            let after = self.definitions();
            assert(after =~= before.insert(slug, updated));
            assert(links_of(after) =~= match linked {
                Some(p) => links_of(before).insert(slug, p),
                None => links_of(before),
            });
        }
    }

    /// Remove a scenario (and so its linked pipeline); whether it was loaded.
    pub fn remove(&mut self, slug: &str) -> (removed: bool)
        requires
            old(self).wf(),
        ensures
            final(self).wf(),
            removed == old(self).definitions().contains_key(slug@),
            final(self).definitions() == old(self).definitions().remove(slug@),
            final(self).linked_pipelines() == old(self).linked_pipelines().remove(slug@),
    {
        let key = String::from_str(slug);
        let removed = match self.scenarios.remove(&key) {
            Some(_) => true,
            None => false,
        };
        proof {
            assert(self.definitions() =~= old(self).definitions().remove(slug@));
            assert(links_of(self.definitions()) =~= links_of(old(self).definitions()).remove(slug@));
        }
        removed
    }

    /// The loaded definition of a scenario.
    pub fn definition(&self, slug: &str) -> (r: Option<&ScenarioDefinition<P>>)
        requires
            self.wf(),
        ensures
            r is Some == self.definitions().contains_key(slug@),
            r matches Some(d) ==> *d == self.definitions()[slug@],
    {
        let key = String::from_str(slug);
        self.scenarios.get(&key)
    }

    /// The linked pipeline of a scenario.
    pub fn linked_pipeline(&self, slug: &str) -> (r: Option<&P>)
        requires
            self.wf(),
        ensures
            r is Some == self.linked_pipelines().contains_key(slug@),
            r matches Some(p) ==> *p == self.linked_pipelines()[slug@],
    {
        match self.definition(slug) {
            Some(d) => match &d.linked_pipeline {
                Some(p) => Some(p),
                None => None,
            },
            None => None,
        }
    }

    /// Number of loaded scenarios.
    pub fn scenario_count(&self) -> (n: usize)
        requires
            self.wf(),
        ensures
            n == self.definitions().len(),
    {
        self.scenarios.len()
    }

    /// The slugs of the loaded scenarios.
    pub fn list_scenarios(&self) -> (slugs: Vec<String>)
        requires
            self.wf(),
        ensures
            slugs@.len() == self.definitions().len(),
            forall|i: int| 0 <= i < slugs@.len() ==> self.definitions().contains_key(#[trigger] slugs@[i]@),
            forall|k: Seq<char>| #[trigger] self.definitions().contains_key(k) ==> exists|i: int|
                0 <= i < slugs@.len() && slugs@[i]@ == k,
    {
        proof {
            self.scenarios.lemma_entries();
        }
        let entries = self.scenarios.entries();
        let mut slugs: Vec<String> = Vec::new();
        let mut i: usize = 0;
        while i < entries.len()
            invariant
                entries@ == self.scenarios.entry_seq(),
                i <= entries.len(),
                slugs@.len() == i,
                forall|j: int| 0 <= j < i ==> #[trigger] slugs@[j]@ == entries@[j].0@,
            decreases entries.len() - i,
        {
            slugs.push(entries[i].0.clone());
            i += 1;
        }
        proof {
            assert forall|k: Seq<char>| #[trigger] self.definitions().contains_key(k) implies exists|i: int|
                0 <= i < slugs@.len() && slugs@[i]@ == k by {
                let j = choose|j: int| 0 <= j < entries@.len() && #[trigger] entries@[j].0@ == k;
                assert(slugs@[j]@ == k);
            }
            assert forall|i: int| 0 <= i < slugs@.len() implies self.definitions().contains_key(#[trigger] slugs@[i]@) by {
                assert(slugs@[i]@ == entries@[i].0@);
            }
        }
        slugs
    }
}

/// Record the outcome of linking each scenario of a reload: `links[i]` is the
/// pipeline the `i`-th scenario linked to, or none when linking failed. A
/// scenario that failed to link stays, unlinked; nothing else changes.
pub fn link_definitions<P>(defs: Vec<ScenarioDefinition<P>>, links: Vec<Option<P>>) -> (linked: Vec<ScenarioDefinition<P>>)
    requires
        links@.len() == defs@.len(),
    ensures
        linked@.len() == defs@.len(),
        forall|i: int| 0 <= i < linked@.len() ==> #[trigger] linked@[i] == (ScenarioDefinition {
            linked_pipeline: links@[i],
            ..defs@[i]
        }),
{
    let ghost all_defs = defs@;
    let ghost all_links = links@;
    let total = defs.len();
    let mut remaining = links;
    let mut linked: Vec<ScenarioDefinition<P>> = Vec::new();
    let mut n: usize = 0;
    for def in it: defs.into_iter()
        invariant
            it.seq() == all_defs,
            n == it.index(),
            n <= all_defs.len(),
            all_defs.len() == total,
            all_links.len() == total,
            remaining@ == all_links.skip(n as int),
            linked@.len() == n,
            forall|i: int| 0 <= i < n ==> #[trigger] linked@[i] == (ScenarioDefinition {
                linked_pipeline: all_links[i],
                ..all_defs[i]
            }),
    {
        proof {
            assert(remaining@[0] == all_links[n as int]);
        }
        let link = remaining.remove(0);
        proof {
            assert(remaining@ =~= all_links.skip(n + 1int));
        }
        linked.push(ScenarioDefinition { linked_pipeline: link, ..def });
        n += 1;
    }
    linked
}

/// Law: every linked pipeline belongs to a loaded scenario, and a loaded
/// scenario is linked exactly when its definition holds a linked pipeline,
/// which is the one served.
pub proof fn law_links_belong_to_loaded<P>(defs: Map<Seq<char>, ScenarioDefinition<P>>, k: Seq<char>)
    ensures
        links_of(defs).contains_key(k) ==> defs.contains_key(k),
        defs.contains_key(k) ==> (links_of(defs).contains_key(k) <==> defs[k].linked_pipeline is Some),
        links_of(defs).contains_key(k) ==> Some(links_of(defs)[k]) == defs[k].linked_pipeline,
{
}

/// What executing a scenario needs once its decisions are taken: the loaded
/// definition, the pipeline to run (the strategy chosen for the context, else
/// the scenario's linked pipeline; none means dynamic execution of the
/// definition), and the initial statistics.
pub struct ExecutionPlan<'a, P> {
    pub scenario: &'a ScenarioDefinition<P>,
    pub pipeline: Option<&'a P>,
    pub stats: ScenarioExecutionStats,
}

/// The pipeline an execution runs: the resolved strategy, else the linked one.
pub open spec fn chosen_pipeline<P>(
    registry: ScenarioRegistry<P>,
    resolver: StrategyResolver<P>,
    slug: Seq<char>,
    ctx: ExecutionContext,
) -> Option<P> {
    match resolution(resolver.rules_of(slug), ctx) {
        Some(p) => Some(p),
        None => registry.linked_pipelines().get(slug),
    }
}

/// The engine's answer to a request from a region its scenario's scope does
/// not list.
pub open spec fn engine_region_refusal() -> Seq<char> {
    "Scenario not available in your region"@
}

/// Take the engine's decisions for a scenario execution: pick the pipeline
/// (the resolved strategy, else the linked one), look the scenario up
/// (refusing unknown slugs), enforce its scope (refusing with the engine's own
/// text), and prepare the statistics.
pub fn plan_execution<'a, P>(
    registry: &'a ScenarioRegistry<P>,
    resolver: &'a StrategyResolver<P>,
    scenario_slug: &str,
    ctx: &ExecutionContext,
    context_params: &JsonValue,
) -> (r: Result<ExecutionPlan<'a, P>, ScenarioError>)
    requires
        registry.wf(),
    ensures
        !registry.definitions().contains_key(scenario_slug@) ==> (r matches Err(ScenarioError::NotFound(m)) && m@ == scenario_slug@),
        registry.definitions().contains_key(scenario_slug@) && !scope_admits(registry.definitions()[scenario_slug@].scope, *context_params)
            ==> (r matches Err(ScenarioError::InvalidConfig(m)) && m@ == engine_region_refusal()),
        registry.definitions().contains_key(scenario_slug@) && scope_admits(registry.definitions()[scenario_slug@].scope, *context_params)
            ==> (r matches Ok(plan) && {
                &&& *plan.scenario == registry.definitions()[scenario_slug@]
                &&& plan.pipeline is Some == chosen_pipeline(*registry, *resolver, scenario_slug@, *ctx) is Some
                &&& (plan.pipeline matches Some(p) ==> *p == chosen_pipeline(*registry, *resolver, scenario_slug@, *ctx)->0)
                &&& fresh_stats(plan.stats, scenario_slug@, plan.scenario.pipeline)
            }),
{
    let pipeline = match resolver.resolve(scenario_slug, ctx) {
        Some(p) => Some(p),
        None => registry.linked_pipeline(scenario_slug),
    };
    let scenario = match registry.definition(scenario_slug) {
        Some(d) => d,
        None => {
            return Err(ScenarioError::NotFound(String::from_str(scenario_slug)));
        },
    };
    match check_scope(&scenario.scope, context_params) {
        Ok(()) => {},
        Err(_) => {
            proof {
                reveal_strlit("Scenario not available in your region");
            }
            return Err(ScenarioError::InvalidConfig(String::from_str("Scenario not available in your region")));
        },
    }
    let stats = execution_stats(scenario_slug, &scenario.pipeline);
    Ok(ExecutionPlan { scenario, pipeline, stats })
}

/// Take the execution manager's decisions for a scenario execution: look the
/// scenario up (refusing unknown slugs), enforce its scope (refusing with the
/// region named), and prepare the statistics. The manager runs the scenario's
/// own pipeline definition, so the plan holds no linked pipeline.
pub fn plan_managed_execution<'a, P>(
    registry: &'a ScenarioRegistry<P>,
    scenario_slug: &str,
    context_params: &JsonValue,
) -> (r: Result<ExecutionPlan<'a, P>, ScenarioError>)
    requires
        registry.wf(),
    ensures
        !registry.definitions().contains_key(scenario_slug@) ==> (r matches Err(ScenarioError::NotFound(m)) && m@ == scenario_slug@),
        registry.definitions().contains_key(scenario_slug@) && !scope_admits(registry.definitions()[scenario_slug@].scope, *context_params)
            ==> (r matches Err(ScenarioError::InvalidConfig(m)) && m@ == region_refusal(*context_params)),
        registry.definitions().contains_key(scenario_slug@) && scope_admits(registry.definitions()[scenario_slug@].scope, *context_params)
            ==> (r matches Ok(plan) && {
                &&& *plan.scenario == registry.definitions()[scenario_slug@]
                &&& plan.pipeline is None
                &&& fresh_stats(plan.stats, scenario_slug@, plan.scenario.pipeline)
            }),
{
    let scenario = match registry.definition(scenario_slug) {
        Some(d) => d,
        None => {
            return Err(ScenarioError::NotFound(String::from_str(scenario_slug)));
        },
    };
    match check_scope(&scenario.scope, context_params) {
        Ok(()) => {},
        Err(e) => {
            return Err(e);
        },
    }
    let stats = execution_stats(scenario_slug, &scenario.pipeline);
    Ok(ExecutionPlan { scenario, pipeline: None, stats })
}

/// The statistics with the time the execution took and whether its items came
/// from the cache; every other field as given.
pub open spec fn finished_stats(s: ScenarioExecutionStats, before: ScenarioExecutionStats, elapsed_ms: u64, cached: bool) -> bool {
    &&& s.scenario_slug == before.scenario_slug
    &&& s.uses_onnx_inference == before.uses_onnx_inference
    &&& s.pipeline_stage_count == before.pipeline_stage_count
    &&& s.onnx_stage_count == before.onnx_stage_count
    &&& s.execution_time_ms == elapsed_ms
    &&& s.cached_result == cached
}

fn finish_stats(stats: ScenarioExecutionStats, elapsed_ms: u64, cached: bool) -> (s: ScenarioExecutionStats)
    ensures
        finished_stats(s, stats, elapsed_ms, cached),
{
    ScenarioExecutionStats { execution_time_ms: elapsed_ms, cached_result: cached, ..stats }
}

/// The execution manager's answer once the pipeline has run: a failure of the
/// pipeline (`e`, the failure's debug text) becomes `ExecutionFailed` with the
/// message "Pipeline execution failed: " followed by `e`; a success gives its
/// items, in order, with statistics of a run that was not cached.
pub fn settle_pipeline<T>(
    stats: ScenarioExecutionStats,
    outcome: Result<Vec<T>, String>,
    elapsed_ms: u64,
) -> (r: Result<(Vec<T>, ScenarioExecutionStats), ScenarioError>)
    ensures
        outcome matches Err(e) ==> (r matches Err(ScenarioError::ExecutionFailed(m))
            && m@ == "Pipeline execution failed: "@ + e@),
        outcome matches Ok(v) ==> (r matches Ok((w, s)) && w@ == v@ && finished_stats(s, stats, elapsed_ms, false)),
{
    match outcome {
        Ok(items) => Ok((items, finish_stats(stats, elapsed_ms, false))),
        Err(e) => {
            let mut message = String::from_str("Pipeline execution failed: ");
            push_text(&mut message, e.as_str());
            Err(ScenarioError::ExecutionFailed(message))
        },
    }
}

/// The engine's answer from the L2 cache, if it gives one: only a scenario
/// that uses the L2 cache reads it, and a hit answers with the cached items,
/// all of them, as a cached result.
pub fn cached_outcome<T>(
    stats: ScenarioExecutionStats,
    use_l2_cache: bool,
    cached: Option<Vec<T>>,
    elapsed_ms: u64,
) -> (r: Option<(Vec<T>, ScenarioExecutionStats)>)
    ensures
        r is Some <==> (use_l2_cache && cached is Some),
        r matches Some((items, s)) ==> items@ == cached->0@ && finished_stats(s, stats, elapsed_ms, true),
{
    if use_l2_cache {
        match cached {
            Some(items) => Some((items, finish_stats(stats, elapsed_ms, true))),
            None => None,
        }
    } else {
        None
    }
}

/// The engine's answer after running the pipeline: the first `limit` items
/// (all when no limit is given), as a result that was not cached.
pub fn engine_run_outcome<T>(
    stats: ScenarioExecutionStats,
    items: Vec<T>,
    elapsed_ms: u64,
    limit: Option<usize>,
) -> (r: (Vec<T>, ScenarioExecutionStats))
    ensures
        r.0@ == match limit {
            Some(l) => if l < items@.len() { items@.take(l as int) } else { items@ },
            None => items@,
        },
        finished_stats(r.1, stats, elapsed_ms, false),
{
    let kept = truncate_to_limit(items, limit);
    (kept, finish_stats(stats, elapsed_ms, false))
}

/// Whether the engine writes a run's items to the L2 cache: exactly when the
/// scenario uses it.
pub fn writes_l2_cache<P>(scenario: &ScenarioDefinition<P>) -> (b: bool)
    ensures
        b == scenario.use_l2_cache,
{
    scenario.use_l2_cache
}

/// The text member `key` of the request's parameters, if it is a string.
pub open spec fn param_text(params: JsonValue, key: Seq<char>) -> Option<Seq<char>> {
    match json_get(params, key) {
        Some(v) => json_as_str(v),
        None => None,
    }
}

/// The rule-evaluation context of an engine request: the profile (empty when
/// absent), the maturity rating ("GE" when absent), the device type (else the
/// `device_type` text of the request's parameters, else empty), and the hour
/// of the request.
pub fn engine_execution_context(
    user_id: Option<i32>,
    profile_id: Option<String>,
    maturity_rating: Option<String>,
    device_type: Option<String>,
    context_params: &JsonValue,
    request_hour: u32,
) -> (ctx: ExecutionContext)
    ensures
        ctx.user_id == user_id,
        ctx.profile_id matches Some(p) && p@ == match profile_id { Some(q) => q@, None => Seq::<char>::empty() },
        ctx.maturity_rating matches Some(m) && m@ == match maturity_rating { Some(r) => r@, None => "GE"@ },
        ctx.device_type matches Some(d) && d@ == match device_type {
            Some(t) => t@,
            None => match param_text(*context_params, "device_type"@) {
                Some(t) => t,
                None => Seq::<char>::empty(),
            },
        },
        ctx.request_hour == request_hour,
{
    let profile = match profile_id {
        Some(p) => p,
        None => String::new(),
    };
    let maturity = match maturity_rating {
        Some(m) => m,
        None => String::from_str("GE"),
    };
    let device = match device_type {
        Some(d) => d,
        None => match context_params.get("device_type") {
            Some(v) => match v.as_str() {
                Some(t) => String::from_str(t),
                None => String::new(),
            },
            None => String::new(),
        },
    };
    ExecutionContext {
        user_id,
        profile_id: Some(profile),
        device_type: Some(device),
        maturity_rating: Some(maturity),
        request_hour,
    }
}

/// The first `limit` items when a limit is given, all of them otherwise.
pub fn truncate_to_limit<T>(items: Vec<T>, limit: Option<usize>) -> (r: Vec<T>)
    ensures
        r@ == match limit {
            Some(l) => if l < items@.len() { items@.take(l as int) } else { items@ },
            None => items@,
        },
{
    let mut items = items;
    match limit {
        Some(l) => {
            items.truncate(l);
        },
        None => {},
    }
    items
}

/// What the cache context holds under a key: the given profile, maturity
/// rating or device type as a JSON string, else what the request's parameters
/// hold there.
pub open spec fn cache_context_lookup(
    params: JsonValue,
    profile_id: Option<String>,
    maturity_rating: Option<String>,
    device_type: Option<String>,
    k: Seq<char>,
) -> Option<JsonValue> {
    if k == "device_type"@ && device_type is Some {
        Some(JsonValue::String(device_type->0))
    } else if k == "maturity_rating"@ && maturity_rating is Some {
        Some(JsonValue::String(maturity_rating->0))
    } else if k == "profile_id"@ && profile_id is Some {
        Some(JsonValue::String(profile_id->0))
    } else {
        json_get(params, k)
    }
}

fn with_text_member(target: JsonValue, key: &str, text: String) -> (r: JsonValue)
    requires
        target is Object || target is Null,
    ensures
        r is Object,
        forall|k: Seq<char>| #[trigger] json_get(r, k) == if k == key@ { Some(JsonValue::String(text)) } else { json_get(target, k) },
{
    let ghost t = target;
    let key_string = String::from_str(key);
    let ghost ks = key_string;
    let r = target.set_member(key_string, JsonValue::String(text));
    proof {
        assert forall|k: Seq<char>| #[trigger] json_get(r, k) == if k == key@ { Some(JsonValue::String(text)) } else { json_get(t, k) } by {
            match t {
                JsonValue::Object(m) => {
                    assert(ks@ == key@);
                    assert(r->Object_0@ == crate::json::members_with(m@, ks, JsonValue::String(text)));
                    lemma_lookup_members_with(m@, ks, JsonValue::String(text), k);
                    assert(json_get(r, k) == member_lookup(r->Object_0@, k));
                },
                _ => {
                    assert(ks@ == key@);
                    assert(r->Object_0@ == seq![(ks, JsonValue::String(text))]);
                    assert(r->Object_0@[0].0@ == key@);
                    assert(r->Object_0@.drop_first() =~= Seq::<(String, JsonValue)>::empty());
                    assert(member_lookup(Seq::<(String, JsonValue)>::empty(), k) is None);
                    assert(json_get(t, k) is None);
                },
            }
        }
    }
    r
}

/// The parameters that key the L2 cache: the request's parameters with the
/// profile, maturity rating and device type set when given.
pub fn cache_context(
    params: JsonValue,
    profile_id: Option<String>,
    maturity_rating: Option<String>,
    device_type: Option<String>,
) -> (r: JsonValue)
    requires
        params is Object || params is Null || (profile_id is None && maturity_rating is None && device_type is None),
    ensures
        profile_id is None && maturity_rating is None && device_type is None ==> r == params,
        profile_id is Some || maturity_rating is Some || device_type is Some ==> r is Object,
        forall|k: Seq<char>| #[trigger] json_get(r, k) == cache_context_lookup(params, profile_id, maturity_rating, device_type, k),
{
    let ghost original = params;
    let mut result = params;
    match profile_id {
        Some(p) => {
            result = with_text_member(result, "profile_id", p);
        },
        None => {},
    }
    let ghost after_profile = result;
    match maturity_rating {
        Some(m) => {
            result = with_text_member(result, "maturity_rating", m);
        },
        None => {},
    }
    let ghost after_maturity = result;
    match device_type {
        Some(d) => {
            result = with_text_member(result, "device_type", d);
        },
        None => {},
    }
    proof {
        assert forall|k: Seq<char>| #[trigger] json_get(result, k) == cache_context_lookup(original, profile_id, maturity_rating, device_type, k) by {
            assert(json_get(after_profile, k) == json_get(after_profile, k));
            assert(json_get(after_maturity, k) == json_get(after_maturity, k));
        }
    }
    result
}

} // verus!
