//! LLM-assisted analysis: scenario and session models, stored credentials,
//! and the merge of rule and LLM results.

pub mod client;
pub mod credentials;
pub mod merger;
pub mod models;
pub mod prompts;
pub mod repository;
pub mod root_causes;
pub mod service;
pub mod sql_diag;
