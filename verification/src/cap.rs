//! The cap on active scenarios: when more scenarios are enabled than allowed,
//! the ones with the longest pipelines are kept.

use vstd::prelude::*;
use vstd::set_lib::{set_int_range, lemma_int_range, lemma_subset_equality, lemma_map_size};
use crate::scenario::ScenarioDefinition;

verus! {

/// The number of stages of a scenario's pipeline, which orders scenarios
/// when the cap is enforced.
pub open spec fn stage_total<P>(d: ScenarioDefinition<P>) -> int {
    d.pipeline.stages@.len() as int
}

/// Scenario `j` comes before scenario `i` in the stable order by descending
/// stage count.
pub open spec fn outranks<P>(defs: Seq<ScenarioDefinition<P>>, j: int, i: int) -> bool {
    stage_total(defs[j]) > stage_total(defs[i]) || (stage_total(defs[j]) == stage_total(defs[i]) && j < i)
}

/// How many of the first `k` scenarios come before scenario `i`.
pub open spec fn rank_below<P>(defs: Seq<ScenarioDefinition<P>>, i: int, k: int) -> nat
    decreases k,
{
    if k <= 0 {
        0
    } else {
        rank_below(defs, i, k - 1) + if outranks(defs, k - 1, i) { 1nat } else { 0nat }
    }
}

/// The position of scenario `i` in the stable order by descending stage count.
pub open spec fn rank<P>(defs: Seq<ScenarioDefinition<P>>, i: int) -> nat {
    rank_below(defs, i, defs.len() as int)
}

/// Whether scenario `i` stays active under the cap.
pub open spec fn survives<P>(defs: Seq<ScenarioDefinition<P>>, cap: nat, i: int) -> bool {
    defs.len() <= cap || rank(defs, i) < cap
}

/// The scenarios among the first `k` that stay active, in their given order.
pub open spec fn survivors<P>(defs: Seq<ScenarioDefinition<P>>, cap: nat, k: int) -> Seq<ScenarioDefinition<P>>
    decreases k,
{
    if k <= 0 {
        Seq::empty()
    } else {
        let prior = survivors(defs, cap, k - 1);
        if survives(defs, cap, k - 1) {
            prior.push(defs[k - 1])
        } else {
            prior
        }
    }
}

/// The cap on active scenarios from the governance setting: the stored value
/// (cast as the engine casts it, so a negative one wraps around), or 20 when
/// the setting could not be read.
pub fn scenario_cap_setting(queried: Option<i32>) -> (cap: usize)
    ensures
        cap == match queried {
            Some(v) => v as usize,
            None => 20usize,
        },
{
    match queried {
        Some(v) => v as usize,
        None => 20,
    }
}

/// Enforce the cap on active scenarios: with more scenarios than `max_cap`,
/// keep the `max_cap` first in the stable order by descending stage count
/// (ties keep their given order); keep the kept ones in their given order.
pub fn enforce_scenario_cap<P>(defs: Vec<ScenarioDefinition<P>>, max_cap: usize) -> (kept: Vec<ScenarioDefinition<P>>)
    ensures
        kept@ == survivors(defs@, max_cap as nat, defs@.len() as int),
{
    let n = defs.len();
    let ghost all = defs@;
    if n <= max_cap {
        proof {
            lemma_survivors_all(all, max_cap as nat, n as int);
        }
        return defs;
    }
    let mut ranks: Vec<usize> = Vec::new();
    let mut i: usize = 0;
    while i < n
        invariant
            n == all.len(),
            defs@ == all,
            i <= n,
            ranks@.len() == i,
            forall|x: int| 0 <= x < i ==> #[trigger] ranks@[x] == rank(all, x),
        decreases n - i,
    {
        let total_i = defs[i].pipeline.stages.len();
        let mut count: usize = 0;
        let mut j: usize = 0;
        while j < n
            invariant
                n == all.len(),
                defs@ == all,
                i < n,
                j <= n,
                total_i == stage_total(all[i as int]),
                count == rank_below(all, i as int, j as int),
                count <= j,
            decreases n - j,
        {
            let total_j = defs[j].pipeline.stages.len();
            if total_j > total_i || (total_j == total_i && j < i) {
                count += 1;
            }
            j += 1;
        }
        ranks.push(count);
        i += 1;
    }
    let mut kept: Vec<ScenarioDefinition<P>> = Vec::new();
    let mut k: usize = 0;
    for def in it: defs.into_iter()
        invariant
            it.seq() == all,
            k == it.index(),
            k <= n,
            n == all.len(),
            n > max_cap,
            ranks@.len() == n,
            forall|x: int| 0 <= x < n ==> #[trigger] ranks@[x] == rank(all, x),
            kept@ == survivors(all, max_cap as nat, k as int),
    {
        if ranks[k] < max_cap {
            kept.push(def);
        }
        k += 1;
    }
    kept
}

proof fn lemma_survivors_all<P>(defs: Seq<ScenarioDefinition<P>>, cap: nat, k: int)
    requires
        defs.len() <= cap,
        0 <= k <= defs.len(),
    ensures
        survivors(defs, cap, k) == defs.take(k),
    decreases k,
{
    if k > 0 {
        lemma_survivors_all(defs, cap, k - 1);
        assert(defs.take(k) =~= defs.take(k - 1).push(defs[k - 1]));
    } else {
        assert(defs.take(0) =~= Seq::<ScenarioDefinition<P>>::empty());
    }
}

proof fn lemma_rank_below_bound<P>(defs: Seq<ScenarioDefinition<P>>, i: int, k: int)
    requires
        0 <= k,
    ensures
        rank_below(defs, i, k) + (if 0 <= i < k { 1int } else { 0int }) <= k,
    decreases k,
{
    if k > 0 {
        lemma_rank_below_bound(defs, i, k - 1);
    }
}

proof fn lemma_rank_below_order<P>(defs: Seq<ScenarioDefinition<P>>, j: int, i: int, k: int)
    requires
        0 <= k,
        outranks(defs, j, i),
    ensures
        rank_below(defs, j, k) + (if 0 <= j < k { 1int } else { 0int }) <= rank_below(defs, i, k),
    decreases k,
{
    if k > 0 {
        lemma_rank_below_order(defs, j, i, k - 1);
    }
}

proof fn lemma_ranks_distinct<P>(defs: Seq<ScenarioDefinition<P>>, i: int, j: int)
    requires
        0 <= i < defs.len(),
        0 <= j < defs.len(),
        i != j,
    ensures
        rank(defs, i) != rank(defs, j),
        outranks(defs, j, i) ==> rank(defs, j) < rank(defs, i),
{
    let n = defs.len() as int;
    if outranks(defs, j, i) {
        lemma_rank_below_order(defs, j, i, n);
    } else {
        assert(outranks(defs, i, j));
        lemma_rank_below_order(defs, i, j, n);
    }
}

/// The indices among the first `k` whose scenario stays active.
pub open spec fn surviving_indices<P>(defs: Seq<ScenarioDefinition<P>>, cap: nat, k: int) -> Set<int> {
    Set::new(|x: int| 0 <= x < k && survives(defs, cap, x))
}

proof fn lemma_survivors_len<P>(defs: Seq<ScenarioDefinition<P>>, cap: nat, k: int)
    requires
        0 <= k,
    ensures
        surviving_indices(defs, cap, k).finite(),
        survivors(defs, cap, k).len() == surviving_indices(defs, cap, k).len(),
    decreases k,
{
    if k == 0 {
        assert(surviving_indices(defs, cap, k) =~= Set::<int>::empty());
    } else {
        lemma_survivors_len(defs, cap, k - 1);
        let prior = surviving_indices(defs, cap, k - 1);
        if survives(defs, cap, k - 1) {
            assert(surviving_indices(defs, cap, k) =~= prior.insert(k - 1));
        } else {
            assert(surviving_indices(defs, cap, k) =~= prior);
        }
    }
}

/// Law: enforcing the cap keeps exactly `min(n, cap)` of `n` scenarios.
pub proof fn law_cap_keeps_min<P>(defs: Seq<ScenarioDefinition<P>>, cap: nat)
    ensures
        survivors(defs, cap, defs.len() as int).len() == if defs.len() <= cap { defs.len() } else { cap },
{
    let n = defs.len() as int;
    lemma_survivors_len(defs, cap, n);
    if defs.len() <= cap {
        assert(surviving_indices(defs, cap, n) =~= set_int_range(0, n));
        lemma_int_range(0, n);
    } else {
        let f = |x: int| rank(defs, x) as int;
        let all = set_int_range(0, n);
        lemma_int_range(0, n);
        assert(vstd::relations::injective_on(f, all)) by {
            assert forall|a: int, b: int| all.contains(a) && all.contains(b) && #[trigger] f(a) == #[trigger] f(b) implies a == b by {
                if a != b {
                    lemma_ranks_distinct(defs, a, b);
                }
            }
        }
        lemma_map_size(all, all.map(f), f);
        assert(all.map(f).subset_of(all)) by {
            assert forall|r: int| #[trigger] all.map(f).contains(r) implies all.contains(r) by {
                let x = choose|x: int| all.contains(x) && f(x) == r;
                lemma_rank_below_bound(defs, x, n);
            }
        }
        lemma_subset_equality(all.map(f), all);
        let kept = surviving_indices(defs, cap, n);
        let low = set_int_range(0, cap as int);
        lemma_int_range(0, cap as int);
        assert(kept.subset_of(all));
        vstd::set_lib::lemma_set_subset_finite(all, kept);
        assert(kept.map(f) =~= low) by {
            assert forall|r: int| #[trigger] low.contains(r) implies kept.map(f).contains(r) by {
                assert(all.contains(r));
                assert(all.map(f).contains(r));
                let x = choose|x: int| all.contains(x) && f(x) == r;
                assert(kept.contains(x));
            }
        }
        assert(vstd::relations::injective_on(f, kept));
        lemma_map_size(kept, low, f);
    }
}

/// Law: every scenario kept under the cap has at least as many stages as
/// every scenario dropped.
pub proof fn law_cap_keeps_longest<P>(defs: Seq<ScenarioDefinition<P>>, cap: nat, i: int, j: int)
    requires
        0 <= i < defs.len(),
        0 <= j < defs.len(),
        survives(defs, cap, i),
        !survives(defs, cap, j),
    ensures
        stage_total(defs[i]) >= stage_total(defs[j]),
{
    if stage_total(defs[j]) > stage_total(defs[i]) {
        lemma_ranks_distinct(defs, i, j);
    }
}

} // verus!
