//! Types of outside crates that values of the library carry unopened.
use vstd::prelude::*;

verus! {

/// `anyhow::Error`, carried as the cause of a library error.
#[verifier::external_type_specification]
#[verifier::external_body]
pub struct ExAnyhowError(anyhow::Error);

} // verus!
