//! Verified decision logic of a small autonomous-vehicle stack: the safety
//! supervisor, the event router, the slow brain's navigation decisions,
//! solver input checks and feature matching.
use vstd::prelude::*;

pub mod features;
pub mod ieee;
pub mod matcher;
pub mod navigation;
pub mod node;
pub mod router;
pub mod safety;
pub mod solver;

verus! {
} // verus!
