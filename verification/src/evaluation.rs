//! Running the evaluation of a specification.
pub mod single_evaluation;
pub mod selectable;
pub mod effects;
pub mod process;
pub mod blockcount;
pub mod initial_ids;
