//! Dynamic pipeline stages referenced by name from JSON pipeline definitions.

use vstd::prelude::*;

verus! {

/// The kind of data a stage consumes or produces.
#[derive(PartialEq, Eq, Structural)]
pub enum StageDataKind {
    ScoredItems,
}

/// Dynamic wrapper around Candle inference.
pub struct CandleDynamicStage;

/// Collaborative filtering through the BERT4Rec model.
pub struct CollaborativeFilteringStage;

/// Content-based ranking through embedding similarity.
pub struct ContentBasedStage;

/// Diversification chosen by a `strategy` parameter.
pub struct DynamicDiversifiersStage;

/// Weighted blend of collaborative and content scores.
pub struct HybridStage;

impl CandleDynamicStage {
    /// The stage's name in pipeline definitions.
    pub fn name(&self) -> (n: &'static str)
        ensures
            n@ == "candle_dynamic"@,
    {
        "candle_dynamic"
    }

    /// Scored items in.
    pub fn input_type(&self) -> (k: StageDataKind)
        ensures
            k == StageDataKind::ScoredItems,
    {
        StageDataKind::ScoredItems
    }

    /// Scored items out.
    pub fn output_type(&self) -> (k: StageDataKind)
        ensures
            k == StageDataKind::ScoredItems,
    {
        StageDataKind::ScoredItems
    }
}

impl CollaborativeFilteringStage {
    /// The stage's name in pipeline definitions.
    pub fn name(&self) -> (n: &'static str)
        ensures
            n@ == "collaborative_filtering"@,
    {
        "collaborative_filtering"
    }

    /// Scored items in.
    pub fn input_type(&self) -> (k: StageDataKind)
        ensures
            k == StageDataKind::ScoredItems,
    {
        StageDataKind::ScoredItems
    }

    /// Scored items out.
    pub fn output_type(&self) -> (k: StageDataKind)
        ensures
            k == StageDataKind::ScoredItems,
    {
        StageDataKind::ScoredItems
    }
}

impl ContentBasedStage {
    /// The stage's name in pipeline definitions.
    pub fn name(&self) -> (n: &'static str)
        ensures
            n@ == "content_based"@,
    {
        "content_based"
    }

    /// Scored items in.
    pub fn input_type(&self) -> (k: StageDataKind)
        ensures
            k == StageDataKind::ScoredItems,
    {
        StageDataKind::ScoredItems
    }

    /// Scored items out.
    pub fn output_type(&self) -> (k: StageDataKind)
        ensures
            k == StageDataKind::ScoredItems,
    {
        StageDataKind::ScoredItems
    }
}

/// Where the diversifier stage sends its input.
#[derive(PartialEq, Eq, Structural)]
pub enum DiversifierRoute {
    /// Diversify by genre.
    Genre,
    /// Unknown strategy: the input passes through unchanged.
    PassThrough,
}

impl DynamicDiversifiersStage {
    /// The stage's name in pipeline definitions.
    pub fn name(&self) -> (n: &'static str)
        ensures
            n@ == "dynamic_diversifiers"@,
    {
        "dynamic_diversifiers"
    }

    /// Scored items in.
    pub fn input_type(&self) -> (k: StageDataKind)
        ensures
            k == StageDataKind::ScoredItems,
    {
        StageDataKind::ScoredItems
    }

    /// Scored items out.
    pub fn output_type(&self) -> (k: StageDataKind)
        ensures
            k == StageDataKind::ScoredItems,
    {
        StageDataKind::ScoredItems
    }

    /// The route for a `strategy` parameter: "genre" diversifies by genre,
    /// anything else passes the input through.
    pub fn route(&self, strategy: &str) -> (r: DiversifierRoute)
        ensures
            r == if strategy@ == "genre"@ { DiversifierRoute::Genre } else { DiversifierRoute::PassThrough },
    {
        if crate::text::same_text(strategy, "genre") {
            DiversifierRoute::Genre
        } else {
            DiversifierRoute::PassThrough
        }
    }
}

impl HybridStage {
    /// The stage's name in pipeline definitions.
    pub fn name(&self) -> (n: &'static str)
        ensures
            n@ == "hybrid"@,
    {
        "hybrid"
    }

    /// Scored items in.
    pub fn input_type(&self) -> (k: StageDataKind)
        ensures
            k == StageDataKind::ScoredItems,
    {
        StageDataKind::ScoredItems
    }

    /// Scored items out.
    pub fn output_type(&self) -> (k: StageDataKind)
        ensures
            k == StageDataKind::ScoredItems,
    {
        StageDataKind::ScoredItems
    }
}

} // verus!
