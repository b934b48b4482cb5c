//! Decisions of the intelligence workers: the local safety check of a global
//! strategy suggestion, and the scenario the self-analysis targets.

use vstd::prelude::*;
use crate::json::{JsonValue, json_get};
use crate::text::same_text;

verus! {

/// What to do with a suggestion after its simulation.
#[derive(PartialEq, Eq, Structural)]
pub enum SuggestionVerdict {
    /// Every compared result keeps at least one suggested item: approve.
    Approve,
    /// Some compared result would be empty: leave it pending.
    LeavePending,
    /// The simulation holds no comparison: take no decision.
    Undecided,
}

/// Whether a compared result keeps at least one suggested item.
pub open spec fn keeps_items(result: JsonValue) -> bool {
    match json_get(result, "suggested_ids"@) {
        Some(JsonValue::Array(ids)) => ids@.len() > 0,
        _ => false,
    }
}

/// The verdict on a simulation report.
pub open spec fn simulation_verdict(simulation: JsonValue) -> SuggestionVerdict {
    match json_get(simulation, "impact_comparison"@) {
        Some(JsonValue::Array(results)) => if forall|i: int| 0 <= i < results@.len() ==> #[trigger] keeps_items(results@[i]) {
            SuggestionVerdict::Approve
        } else {
            SuggestionVerdict::LeavePending
        },
        _ => SuggestionVerdict::Undecided,
    }
}

fn keeps_items_exec(result: &JsonValue) -> (r: bool)
    ensures
        r == keeps_items(*result),
{
    match result.get("suggested_ids") {
        Some(ids) => match ids.as_array() {
            Some(a) => a.len() > 0,
            None => false,
        },
        None => false,
    }
}

proof fn lemma_pending(simulation: JsonValue, results: Vec<JsonValue>, i: int)
    requires
        json_get(simulation, "impact_comparison"@) == Some(JsonValue::Array(results)),
        0 <= i < results@.len(),
        !keeps_items(results@[i]),
    ensures
        simulation_verdict(simulation) == SuggestionVerdict::LeavePending,
{
    match json_get(simulation, "impact_comparison"@) {
        Some(JsonValue::Array(r)) => {
            assert(r == results);
            assert(!keeps_items(r@[i]));
        },
        _ => {},
    }
}

/// Judge a suggestion's simulation: approve when no compared result would be
/// left without items.
pub fn judge_simulation(simulation: &JsonValue) -> (v: SuggestionVerdict)
    ensures
        v == simulation_verdict(*simulation),
{
    match simulation.get("impact_comparison") {
        Some(comparison) => match comparison.as_array() {
            Some(results) => {
                let mut i: usize = 0;
                while i < results.len()
                    invariant
                        i <= results.len(),
                        json_get(*simulation, "impact_comparison"@) == Some(JsonValue::Array(*results)),
                        forall|j: int| 0 <= j < i ==> #[trigger] keeps_items(results@[j]),
                    decreases results.len() - i,
                {
                    if !keeps_items_exec(&results[i]) {
                        proof {
                            lemma_pending(*simulation, *results, i as int);
                        }
                        return SuggestionVerdict::LeavePending;
                    }
                    i += 1;
                }
                SuggestionVerdict::Approve
            },
            None => SuggestionVerdict::Undecided,
        },
        None => SuggestionVerdict::Undecided,
    }
}

/// The scenario a self-analysis cycle targets: "home_feed" when loaded, else
/// the first loaded scenario; none when no scenario is loaded.
pub fn choose_target_slug(slugs: &Vec<String>) -> (target: Option<String>)
    ensures
        slugs@.len() == 0 ==> target is None,
        slugs@.len() > 0 ==> target is Some,
        slugs@.len() > 0 ==> target->0@ == if exists|i: int| 0 <= i < slugs@.len() && #[trigger] slugs@[i]@ == "home_feed"@ {
            "home_feed"@
        } else {
            slugs@[0]@
        },
{
    if slugs.len() == 0 {
        return None;
    }
    let mut i: usize = 0;
    while i < slugs.len()
        invariant
            i <= slugs.len(),
            forall|j: int| 0 <= j < i ==> #[trigger] slugs@[j]@ != "home_feed"@,
        decreases slugs.len() - i,
    {
        if same_text(slugs[i].as_str(), "home_feed") {
            return Some(String::from_str("home_feed"));
        }
        i += 1;
    }
    Some(slugs[0].clone())
}

} // verus!
