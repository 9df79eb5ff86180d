use vstd::prelude::*;

pub mod catchable;
pub mod evaluation;
pub mod features;
pub mod log_pfx;
pub mod messages;
pub mod spec;

verus! {
} // verus!
