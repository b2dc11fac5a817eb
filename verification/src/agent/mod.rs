//! Operations agent: event model, collection, convergence, diagnosis,
//! hypothesis validation and the two-phase write actions.

pub mod actions;
pub mod collectors;
pub mod converge;
pub mod diagnoser;
pub mod hypotheses;
pub mod models;
pub mod runtime;
pub mod tick;
