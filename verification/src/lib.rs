//! Verified core of the Stellar operations control plane for StarRocks and
//! Apache Doris clusters: the event pipeline of the operations agent, the
//! audit-log analysis, the LLM scenario logic and the texts they produce.

pub mod agent;
pub mod ai;
pub mod audit;
pub mod baseline;
pub mod cluster;
pub mod llm;
pub mod profile_access;
pub mod rbac;
pub mod rows;
pub mod stats;
pub mod text;
