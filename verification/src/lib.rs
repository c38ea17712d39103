//! Verified core of the Taihao OS device services: configuration defaults and
//! lookups, link fail-over decisions, whitelists, audit decisions, SKILL
//! frontmatter checks, decision parsing and the mode-to-actuator mapping.
use vstd::prelude::*;

pub mod text;
pub mod json;
pub mod numparse;
pub mod argmap;
pub mod paths;
pub mod audit;
pub mod comm_config;
pub mod links;
pub mod bridge;
pub mod bridge_config;
pub mod bridge_service;
pub mod hal_config;
pub mod hal_driver;
pub mod hal_gateway;
pub mod rt_config;
pub mod control;
pub mod skill;
pub mod provider;
pub mod agent;
pub mod dispatcher;
pub mod link_stats;
pub mod health;
pub mod hal_service;
pub mod agent_config;
pub mod extension;
pub mod agent_runtime;
pub mod rt_service;
pub mod order;
pub mod laws;

verus! {

} // verus!
