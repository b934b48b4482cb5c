//! Verified core of the Bongas-AI discovery engine: database metrics and the
//! decisions of the resilient pool, the strategy resolver, scenario
//! governance, page orchestration, and the query planning of the repositories.

pub mod metrics;
pub mod text;
pub mod json;
pub mod scenario;
pub mod strategy;
pub mod table;
pub mod cap;
pub mod pages;
pub mod discovery;
pub mod queries;
pub mod pool;
pub mod stages;
pub mod insight;
pub mod rows;
pub mod symphony;
pub mod layout_cache;
pub mod scenario_store;
