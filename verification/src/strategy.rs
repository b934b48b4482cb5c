//! The strategy resolver: selects, for a scenario and a request context, the
//! pipeline of the first active rule whose targeting and condition match.

use vstd::prelude::*;
use crate::json::{JsonValue, json_as_str, json_as_u64};
use crate::scenario::PipelineDefinition;
use crate::text::same_text;

verus! {

/// What rule evaluation reads of a request: the identity and targeting
/// attributes, and the hour of the request time (UTC, 0 to 23).
pub struct ExecutionContext {
    pub user_id: Option<i32>,
    pub profile_id: Option<String>,
    pub device_type: Option<String>,
    pub maturity_rating: Option<String>,
    pub request_hour: u32,
}

/// An active rule for strategy selection. `P` is the linked pipeline.
pub struct ActiveRule<P> {
    pub id: i32,
    pub priority: i32,
    pub device_type: Option<String>,
    pub maturity_rating: Option<String>,
    pub condition: JsonValue,
    pub pipeline_slug: String,
    pub pipeline_definition: PipelineDefinition,
    pub pipeline: Option<P>,
}

/// Whether a context attribute, rendered as JSON (a string, or `null` when
/// absent), equals the expected value.
pub open spec fn attribute_matches(actual: Option<String>, expected: JsonValue) -> bool {
    match actual {
        Some(s) => json_as_str(expected) == Some(s@),
        None => expected is Null,
    }
}

/// The `time.hour_range` clause: a two-element array `[start, end]` (missing
/// or non-integer bounds read as 0 and 23) admits the hours from start to end,
/// wrapping past midnight when start > end. Any other value admits every hour.
pub open spec fn hour_range_admits(range: JsonValue, hour: u32) -> bool {
    match range {
        JsonValue::Array(a) => if a@.len() == 2 {
            let start = match json_as_u64(a@[0]) { Some(n) => n as u32, None => 0u32 };
            let end = match json_as_u64(a@[1]) { Some(n) => n as u32, None => 23u32 };
            if start <= end {
                start <= hour && hour <= end
            } else {
                hour >= start || hour <= end
            }
        } else {
            true
        },
        _ => true,
    }
}

/// Whether one `key: expected` clause of a condition holds in the context.
/// Unknown keys never hold.
pub open spec fn clause_holds(key: Seq<char>, expected: JsonValue, ctx: ExecutionContext) -> bool {
    if key == "context.device_type"@ {
        attribute_matches(ctx.device_type, expected)
    } else if key == "context.profile_id"@ {
        attribute_matches(ctx.profile_id, expected)
    } else if key == "context.maturity_rating"@ {
        attribute_matches(ctx.maturity_rating, expected)
    } else if key == "time.hour"@ {
        json_as_u64(expected) == Some(ctx.request_hour as u64)
    } else if key == "time.hour_range"@ {
        hour_range_admits(expected, ctx.request_hour)
    } else {
        false
    }
}

/// A condition holds when it is an object all of whose clauses hold (the
/// empty object included), or `null`.
pub open spec fn condition_holds(condition: JsonValue, ctx: ExecutionContext) -> bool {
    match condition {
        JsonValue::Object(members) => forall|i: int|
            0 <= i < members@.len() ==> #[trigger] clause_holds(members@[i].0@, members@[i].1, ctx),
        JsonValue::Null => true,
        _ => false,
    }
}

/// A targeting column admits the context when it is absent, equals the
/// catch-all value, or equals the context's attribute.
pub open spec fn targeting_admits(column: Option<String>, catch_all: Seq<char>, actual: Option<String>) -> bool {
    match column {
        None => true,
        Some(c) => c@ == catch_all || (actual matches Some(a) && a@ == c@),
    }
}

/// A rule applies when its device and maturity targeting admit the context
/// (catch-alls "default" and "all") and its condition holds.
pub open spec fn rule_applies<P>(rule: ActiveRule<P>, ctx: ExecutionContext) -> bool {
    &&& targeting_admits(rule.device_type, "default"@, ctx.device_type)
    &&& targeting_admits(rule.maturity_rating, "all"@, ctx.maturity_rating)
    &&& condition_holds(rule.condition, ctx)
}

/// The pipeline of the first rule that applies and has a linked pipeline.
pub open spec fn resolution<P>(rules: Seq<ActiveRule<P>>, ctx: ExecutionContext) -> Option<P>
    decreases rules.len(),
{
    if rules.len() == 0 {
        None
    } else if rule_applies(rules[0], ctx) && rules[0].pipeline is Some {
        rules[0].pipeline
    } else {
        resolution(rules.drop_first(), ctx)
    }
}

/// The rules of the first group keyed by `slug`, or none.
pub open spec fn group_of<R>(groups: Seq<(String, Vec<R>)>, slug: Seq<char>) -> Seq<R>
    decreases groups.len(),
{
    if groups.len() == 0 {
        Seq::empty()
    } else if groups[0].0@ == slug {
        groups[0].1@
    } else {
        group_of(groups.drop_first(), slug)
    }
}

/// The rules of the rows keyed by `slug`, in row order.
pub open spec fn rows_for<R>(rows: Seq<(String, R)>, slug: Seq<char>) -> Seq<R>
    decreases rows.len(),
{
    if rows.len() == 0 {
        Seq::empty()
    } else {
        let prior = rows_for(rows.drop_last(), slug);
        if rows.last().0@ == slug {
            prior.push(rows.last().1)
        } else {
            prior
        }
    }
}

fn attribute_matches_exec(actual: &Option<String>, expected: &JsonValue) -> (r: bool)
    ensures
        r == attribute_matches(*actual, *expected),
{
    match actual {
        Some(s) => match expected.as_str() {
            Some(t) => same_text(s.as_str(), t),
            None => false,
        },
        None => expected.is_null(),
    }
}

fn hour_range_admits_exec(range: &JsonValue, hour: u32) -> (r: bool)
    ensures
        r == hour_range_admits(*range, hour),
{
    match range.as_array() {
        Some(a) => {
            if a.len() == 2 {
                let start = match a[0].as_u64() { Some(n) => n as u32, None => 0u32 };
                let end = match a[1].as_u64() { Some(n) => n as u32, None => 23u32 };
                if start <= end {
                    hour >= start && hour <= end
                } else {
                    hour >= start || hour <= end
                }
            } else {
                true
            }
        },
        None => true,
    }
}

fn clause_holds_exec(key: &str, expected: &JsonValue, ctx: &ExecutionContext) -> (r: bool)
    ensures
        r == clause_holds(key@, *expected, *ctx),
{
    if same_text(key, "context.device_type") {
        attribute_matches_exec(&ctx.device_type, expected)
    } else if same_text(key, "context.profile_id") {
        attribute_matches_exec(&ctx.profile_id, expected)
    } else if same_text(key, "context.maturity_rating") {
        attribute_matches_exec(&ctx.maturity_rating, expected)
    } else if same_text(key, "time.hour") {
        match expected.as_u64() {
            Some(h) => h == ctx.request_hour as u64,
            None => false,
        }
    } else if same_text(key, "time.hour_range") {
        hour_range_admits_exec(expected, ctx.request_hour)
    } else {
        false
    }
}

fn targeting_admits_exec(column: &Option<String>, catch_all: &str, actual: &Option<String>) -> (r: bool)
    ensures
        r == targeting_admits(*column, catch_all@, *actual),
{
    match column {
        None => true,
        Some(c) => {
            if same_text(c.as_str(), catch_all) {
                true
            } else {
                match actual {
                    Some(a) => same_text(a.as_str(), c.as_str()),
                    None => false,
                }
            }
        },
    }
}

proof fn lemma_failed_clause(members: Vec<(String, JsonValue)>, i: int, ctx: ExecutionContext)
    requires
        0 <= i < members@.len(),
        !clause_holds(members@[i].0@, members@[i].1, ctx),
    ensures
        !condition_holds(JsonValue::Object(members), ctx),
{
    let c = JsonValue::Object(members);
    match c {
        JsonValue::Object(m) => {
            assert(m == members);
            assert(!clause_holds(m@[i].0@, m@[i].1, ctx));
        },
        _ => {},
    }
}

/// Evaluate a routing condition against the context.
pub fn evaluate_condition(condition: &JsonValue, ctx: &ExecutionContext) -> (r: bool)
    ensures
        r == condition_holds(*condition, *ctx),
{
    match condition {
        JsonValue::Object(members) => {
            let mut i: usize = 0;
            while i < members.len()
                invariant
                    condition == JsonValue::Object(*members),
                    i <= members.len(),
                    forall|j: int| 0 <= j < i ==> #[trigger] clause_holds(members@[j].0@, members@[j].1, *ctx),
                decreases members.len() - i,
            {
                if !clause_holds_exec(members[i].0.as_str(), &members[i].1, ctx) {
                    proof {
                        assert(!clause_holds(members@[i as int].0@, members@[i as int].1, *ctx));
                        lemma_failed_clause(*members, i as int, *ctx);
                    }
                    return false;
                }
                i += 1;
            }
            true
        },
        JsonValue::Null => true,
        _ => false,
    }
}

/// Evaluate a rule's targeting columns and condition against the context.
pub fn evaluate_rule<P>(rule: &ActiveRule<P>, ctx: &ExecutionContext) -> (r: bool)
    ensures
        r == rule_applies(*rule, *ctx),
{
    if !targeting_admits_exec(&rule.device_type, "default", &ctx.device_type) {
        return false;
    }
    if !targeting_admits_exec(&rule.maturity_rating, "all", &ctx.maturity_rating) {
        return false;
    }
    evaluate_condition(&rule.condition, ctx)
}

proof fn lemma_group_of_update<R>(g: Seq<(String, Vec<R>)>, j: int, e: (String, Vec<R>), s: Seq<char>)
    requires
        0 <= j < g.len(),
        e.0@ == g[j].0@,
        forall|k: int| 0 <= k < j ==> g[k].0@ != g[j].0@,
    ensures
        group_of(g.update(j, e), s) == if s == g[j].0@ { e.1@ } else { group_of(g, s) },
    decreases j,
{
    if j > 0 {
        assert(g[0].0@ != g[j].0@);
        assert(g.update(j, e)[0] == g[0]);
        assert forall|k: int| 0 <= k < j - 1 implies #[trigger] g.drop_first()[k].0@ != g.drop_first()[j - 1].0@ by {
            assert(g.drop_first()[k] == g[k + 1]);
        }
        lemma_group_of_update(g.drop_first(), j - 1, e, s);
        assert(g.update(j, e).drop_first() =~= g.drop_first().update(j - 1, e));
    } else {
        assert(g.update(j, e)[0] == e);
        assert(g.update(j, e).drop_first() =~= g.drop_first());
    }
}

/// Whether some group of `g` is keyed by `s`.
pub open spec fn has_group<R>(g: Seq<(String, Vec<R>)>, s: Seq<char>) -> bool {
    exists|k: int| 0 <= k < g.len() && #[trigger] g[k].0@ == s
}

proof fn lemma_group_of_push<R>(g: Seq<(String, Vec<R>)>, e: (String, Vec<R>), s: Seq<char>)
    ensures
        group_of(g.push(e), s) == if has_group(g, s) {
            group_of(g, s)
        } else if e.0@ == s {
            e.1@
        } else {
            Seq::<R>::empty()
        },
    decreases g.len(),
{
    if g.len() > 0 {
        let t = g.drop_first();
        lemma_group_of_push(t, e, s);
        assert(g.push(e).drop_first() =~= t.push(e));
        assert(g.push(e)[0] == g[0]);
        if g[0].0@ != s {
            assert(group_of(g.push(e), s) == group_of(t.push(e), s));
            assert(group_of(g, s) == group_of(t, s));
            if has_group(g, s) {
                let k = choose|k: int| 0 <= k < g.len() && #[trigger] g[k].0@ == s;
                assert(k > 0);
                assert(t[k - 1] == g[k]);
                assert(has_group(t, s));
            }
            if has_group(t, s) {
                let k = choose|k: int| 0 <= k < t.len() && #[trigger] t[k].0@ == s;
                assert(t[k] == g[k + 1]);
                assert(has_group(g, s));
            }
        } else {
            assert(group_of(g.push(e), s) == g[0].1@);
            assert(has_group(g, s)) by {
                assert(g[0].0@ == s);
            }
        }
    } else {
        assert(!has_group(g, s));
        assert(g.push(e)[0] == e);
        assert(g.push(e).drop_first() =~= Seq::<(String, Vec<R>)>::empty());
        assert(group_of(Seq::<(String, Vec<R>)>::empty(), s) == Seq::<R>::empty());
    }
}

/// Group rule rows by scenario slug, keeping the row order within each group;
/// every group holds at least one rule.
pub fn group_rules_by_scenario<P>(rows: Vec<(String, ActiveRule<P>)>) -> (groups: Vec<(String, Vec<ActiveRule<P>>)>)
    ensures
        forall|slug: Seq<char>| #[trigger] group_of(groups@, slug) == rows_for(rows@, slug),
        forall|k: int| 0 <= k < groups@.len() ==> #[trigger] groups@[k].1@.len() > 0,
{
    let ghost all = rows@;
    let total = rows.len();
    let mut groups: Vec<(String, Vec<ActiveRule<P>>)> = Vec::new();
    let mut n: usize = 0;
    for row in it: rows.into_iter()
        invariant
            it.seq() == all,
            n == it.index(),
            n <= all.len(),
            all.len() == total,
            forall|slug: Seq<char>| #[trigger] group_of(groups@, slug) == rows_for(all.take(n as int), slug),
            forall|k: int| 0 <= k < groups@.len() ==> #[trigger] groups@[k].1@.len() > 0,
    {
        let ghost before = groups@;
        let ghost cur = row;
        proof {
            assert(cur == all[n as int]);
        }
        let (slug, rule) = row;
        let ghost key = slug@;
        let ghost added = rule;
        let mut j: usize = 0;
        let mut found = false;
        #[verifier::loop_isolation(false)]
        while j < groups.len()
            invariant
                groups@ == before,
                j <= groups.len(),
                forall|k: int| 0 <= k < j ==> groups@[k].0@ != key,
                found ==> j < groups.len() && groups@[j as int].0@ == key,
            decreases groups.len() - j + (if found { 0int } else { 1int }),
        {
            let a = groups[j].0.as_str();
            let b = slug.as_str();
            proof {
                assert(b@ == key);
                assert(a@ == groups@[j as int].0@);
            }
            let same = same_text(a, b);
            proof {
                assert(groups@[j as int].0@ == groups[j as int].0@);
                assert(same == (groups@[j as int].0@ == key));
            }
            if same {
                found = true;
                break;
            }
            j += 1;
        }
        proof {
            assert(all.take(n + 1int).drop_last() =~= all.take(n as int));
            assert(all.take(n + 1int).last() == all[n as int]);
        }
        if found {
            let mut entry = groups.remove(j);
            let ghost old_entry = entry;
            entry.1.push(rule);
            groups.insert(j, entry);
            proof {
                assert(groups@ =~= before.update(j as int, entry));
                assert(entry.1@.len() > 0);
                lemma_group_of_update(before, j as int, old_entry, key);
                assert(before.update(j as int, old_entry) =~= before);
                assert forall|s: Seq<char>| #[trigger] group_of(groups@, s) == rows_for(all.take(n + 1int), s) by {
                    lemma_group_of_update(before, j as int, entry, s);
                    assert(entry.1@ == old_entry.1@.push(added));
                }
            }
        } else {
            let mut fresh: Vec<ActiveRule<P>> = Vec::new();
            fresh.push(rule);
            groups.push((slug, fresh));
            proof {
                assert forall|s: Seq<char>| #[trigger] group_of(groups@, s) == rows_for(all.take(n + 1int), s) by {
                    lemma_group_of_push(before, groups@.last(), s);
                    assert(before.push(groups@.last()) =~= groups@);
                    if !has_group(before, s) && group_of(before, s).len() > 0 {
                        lemma_group_of_nonempty_has_key(before, s);
                    }
                    if s == key {
                        if has_group(before, s) {
                            let k = choose|k: int| 0 <= k < before.len() && #[trigger] before[k].0@ == s;
                            assert(before[k].0@ != key);
                        }
                        assert(groups@.last().1@ =~= seq![added]);
                    }
                }
            }
        }
        n += 1;
    }
    proof {
        assert(all.take(all.len() as int) =~= all);
    }
    groups
}

proof fn lemma_group_of_nonempty_has_key<R>(g: Seq<(String, Vec<R>)>, s: Seq<char>)
    requires
        group_of(g, s).len() > 0,
    ensures
        has_group(g, s),
    decreases g.len(),
{
    if g[0].0@ != s {
        lemma_group_of_nonempty_has_key(g.drop_first(), s);
        let k = choose|k: int| 0 <= k < g.drop_first().len() && #[trigger] g.drop_first()[k].0@ == s;
        assert(g.drop_first()[k] == g[k + 1]);
        assert(g[k + 1].0@ == s);
    } else {
        assert(g[0].0@ == s);
    }
}

/// In-memory table of scenario rules for strategy selection: for each
/// scenario slug, its active rules in priority order.
pub struct StrategyResolver<P> {
    rules: Vec<(String, Vec<ActiveRule<P>>)>,
}

impl<P> StrategyResolver<P> {
    /// The rules held for a scenario, in evaluation order.
    pub closed spec fn rules_of(&self, slug: Seq<char>) -> Seq<ActiveRule<P>> {
        group_of(self.rules@, slug)
    }

    /// An empty resolver: no scenario has rules.
    pub fn new() -> (r: Self)
        ensures
            forall|slug: Seq<char>| #[trigger] r.rules_of(slug) == Seq::<ActiveRule<P>>::empty(),
    {
        StrategyResolver { rules: Vec::new() }
    }

    /// Replace the whole rule table.
    pub fn update_rules(&mut self, new_rules: Vec<(String, Vec<ActiveRule<P>>)>)
        ensures
            forall|slug: Seq<char>| #[trigger] final(self).rules_of(slug) == group_of(new_rules@, slug),
    {
        self.rules = new_rules;
    }

    /// Resolve the pipeline for a scenario in a context: the linked pipeline of
    /// the first of its rules that applies and has one.
    pub fn resolve(&self, scenario_slug: &str, ctx: &ExecutionContext) -> (r: Option<&P>)
        ensures
            r is Some == resolution(self.rules_of(scenario_slug@), *ctx) is Some,
            r matches Some(p) ==> *p == resolution(self.rules_of(scenario_slug@), *ctx)->0,
    {
        let mut j: usize = 0;
        proof {
            assert(self.rules@.skip(0) =~= self.rules@);
        }
        while j < self.rules.len()
            invariant
                j <= self.rules.len(),
                group_of(self.rules@, scenario_slug@) == group_of(self.rules@.skip(j as int), scenario_slug@),
            decreases self.rules.len() - j,
        {
            proof {
                assert(self.rules@.skip(j as int).drop_first() =~= self.rules@.skip(j + 1int));
                assert(self.rules@.skip(j as int)[0] == self.rules@[j as int]);
            }
            if same_text(self.rules[j].0.as_str(), scenario_slug) {
                let rules = &self.rules[j].1;
                let mut i: usize = 0;
                proof {
                    assert(rules@.skip(0) =~= rules@);
                }
                while i < rules.len()
                    invariant
                        i <= rules.len(),
                        *rules == self.rules@[j as int].1,
                        group_of(self.rules@, scenario_slug@) == rules@,
                        resolution(rules@, *ctx) == resolution(rules@.skip(i as int), *ctx),
                    decreases rules.len() - i,
                {
                    proof {
                        assert(rules@.skip(i as int).drop_first() =~= rules@.skip(i + 1int));
                        assert(rules@.skip(i as int)[0] == rules@[i as int]);
                    }
                    if evaluate_rule(&rules[i], ctx) {
                        match &rules[i].pipeline {
                            Some(p) => {
                                return Some(p);
                            },
                            None => {},
                        }
                    }
                    i += 1;
                }
                return None;
            }
            j += 1;
        }
        None
    }
}

/// Whether `r` is the rule of some row keyed by `slug`.
pub open spec fn from_rows<R>(rows: Seq<(String, R)>, slug: Seq<char>, r: R) -> bool {
    exists|i: int| 0 <= i < rows.len() && rows[i].0@ == slug && #[trigger] rows[i].1 == r
}

proof fn lemma_rows_for_from_rows<R>(rows: Seq<(String, R)>, slug: Seq<char>)
    ensures
        forall|a: int| 0 <= a < rows_for(rows, slug).len() ==> #[trigger] from_rows(rows, slug, rows_for(rows, slug)[a]),
    decreases rows.len(),
{
    if rows.len() > 0 {
        let prefix = rows.drop_last();
        lemma_rows_for_from_rows(prefix, slug);
        assert forall|a: int| 0 <= a < rows_for(rows, slug).len() implies #[trigger] from_rows(rows, slug, rows_for(rows, slug)[a]) by {
            if a < rows_for(prefix, slug).len() {
                assert(from_rows(prefix, slug, rows_for(prefix, slug)[a]));
                let i = choose|i: int| 0 <= i < prefix.len() && prefix[i].0@ == slug && #[trigger] prefix[i].1 == rows_for(prefix, slug)[a];
                assert(prefix[i] == rows[i]);
                assert(rows[i].1 == rows_for(rows, slug)[a]);
            } else {
                assert(rows[rows.len() - 1].1 == rows_for(rows, slug)[a]);
            }
        }
    }
}

/// Law: when the rule rows come ordered by descending priority within each
/// scenario (as the rule query orders them), the rules grouped for each
/// scenario keep that order.
pub proof fn law_rules_keep_priority_order<P>(rows: Seq<(String, ActiveRule<P>)>, slug: Seq<char>)
    requires
        forall|i: int, j: int| 0 <= i < j < rows.len() && #[trigger] rows[i].0@ == slug && #[trigger] rows[j].0@ == slug
            ==> rows[i].1.priority >= rows[j].1.priority,
    ensures
        forall|a: int, b: int| 0 <= a < b < rows_for(rows, slug).len()
            ==> #[trigger] rows_for(rows, slug)[a].priority >= #[trigger] rows_for(rows, slug)[b].priority,
    decreases rows.len(),
{
    if rows.len() > 0 {
        let prefix = rows.drop_last();
        let n = rows.len() - 1;
        assert forall|i: int, j: int| 0 <= i < j < prefix.len() && #[trigger] prefix[i].0@ == slug && #[trigger] prefix[j].0@ == slug
            implies prefix[i].1.priority >= prefix[j].1.priority by {
            assert(prefix[i] == rows[i]);
            assert(prefix[j] == rows[j]);
        }
        law_rules_keep_priority_order(prefix, slug);
        lemma_rows_for_from_rows(prefix, slug);
        let before = rows_for(prefix, slug);
        if rows.last().0@ == slug {
            assert(rows[n].0@ == slug);
            assert forall|a: int, b: int| 0 <= a < b < rows_for(rows, slug).len()
                implies #[trigger] rows_for(rows, slug)[a].priority >= #[trigger] rows_for(rows, slug)[b].priority by {
                if b == before.len() {
                    assert(from_rows(prefix, slug, before[a]));
                    let i = choose|i: int| 0 <= i < prefix.len() && prefix[i].0@ == slug && #[trigger] prefix[i].1 == before[a];
                    assert(prefix[i] == rows[i]);
                    assert(rows[i].0@ == slug);
                }
            }
        }
    }
}

/// Whether a rule serves a context: it applies and has a linked pipeline.
pub open spec fn serves<P>(rule: ActiveRule<P>, ctx: ExecutionContext) -> bool {
    rule_applies(rule, ctx) && rule.pipeline is Some
}

/// Law: the strategy resolved for a context is the pipeline of the first rule,
/// in rule order, that applies to the context and is linked; every earlier
/// rule does not serve it. When nothing is resolved, no rule serves it.
pub proof fn law_resolution_first_serving<P>(rules: Seq<ActiveRule<P>>, ctx: ExecutionContext)
    ensures
        resolution(rules, ctx) matches Some(p) ==> exists|i: int|
            0 <= i < rules.len() && #[trigger] serves(rules[i], ctx) && rules[i].pipeline == Some(p)
            && forall|j: int| 0 <= j < i ==> !serves(#[trigger] rules[j], ctx),
        resolution(rules, ctx) is None ==> forall|i: int| 0 <= i < rules.len() ==> !serves(#[trigger] rules[i], ctx),
    decreases rules.len(),
{
    if rules.len() > 0 {
        let rest = rules.drop_first();
        law_resolution_first_serving(rest, ctx);
        if serves(rules[0], ctx) {
            assert(serves(rules[0], ctx) && rules[0].pipeline == resolution(rules, ctx));
        } else {
            assert(resolution(rules, ctx) == resolution(rest, ctx));
            if resolution(rest, ctx) is Some {
                let p = resolution(rest, ctx)->0;
                let i = choose|i: int|
                    0 <= i < rest.len() && #[trigger] serves(rest[i], ctx) && rest[i].pipeline == Some(p)
                    && forall|j: int| 0 <= j < i ==> !serves(#[trigger] rest[j], ctx);
                assert(rules[i + 1] == rest[i]);
                assert forall|j: int| 0 <= j < i + 1 implies !serves(#[trigger] rules[j], ctx) by {
                    if j > 0 {
                        assert(rules[j] == rest[j - 1]);
                    }
                }
                assert(serves(rules[i + 1], ctx) && rules[i + 1].pipeline == Some(p));
            } else {
                assert forall|i: int| 0 <= i < rules.len() implies !serves(#[trigger] rules[i], ctx) by {
                    if i > 0 {
                        assert(rules[i] == rest[i - 1]);
                    }
                }
            }
        }
    }
}

} // verus!
