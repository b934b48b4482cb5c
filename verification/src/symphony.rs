//! The unified orchestrator's entry point.

use std::sync::Arc;
use vstd::prelude::*;

verus! {

/// The grand orchestrator: holds the application configuration from which
/// the engine is assembled. `C` is the configuration type.
pub struct DiscoverySymphony<C> {
    config: Arc<C>,
}

impl<C> DiscoverySymphony<C> {
    /// The configuration the engine is assembled from.
    pub closed spec fn spec_config(&self) -> C {
        *self.config
    }

    /// A symphony for a configuration.
    pub fn new(config: Arc<C>) -> (s: Self)
        ensures
            s.spec_config() == *config,
    {
        DiscoverySymphony { config }
    }

    /// The configuration the engine is assembled from.
    pub fn config(&self) -> (c: &Arc<C>)
        ensures
            **c == self.spec_config(),
    {
        &self.config
    }
}

} // verus!
