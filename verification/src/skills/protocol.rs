//! What a skill plugin lists and the error it reports.
use vstd::prelude::*;

verus! {

/// A skill a plugin offers.
#[derive(Debug, Clone)]
pub struct SkillSpec {
    pub name: String,
    pub description: String,
}

/// An error a skill plugin reports.
#[derive(Debug, Clone)]
pub struct SkillError {
    pub code: String,
    pub message: String,
}

} // verus!
