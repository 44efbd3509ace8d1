//! Contracts for exact analytic curves and surfaces: parameter domains,
//! evaluation contexts and results, typed handles, structured failures, and
//! the resource caps of the certified exact-arithmetic backends.
pub mod analytic;
pub mod domain;
pub mod error;
pub mod evaluation;
pub mod id;
pub mod kind;
