//! The data model of a specification: entities, values and their evaluation.
pub mod text;
pub mod values;
pub mod deep;
pub mod entities;
pub mod runtime;
pub mod numbers;
pub mod regex_support;
pub mod eval;
pub mod eval_laws;
pub mod intpow;
pub mod structure;
pub mod value_laws;
pub mod action_laws;
