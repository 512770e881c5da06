pub mod common;
pub mod error;
pub mod gen3;
pub mod mem;

pub use crate::error::PkError;

use vstd::prelude::*;

verus! {

/// Shorthand for the result type every fallible operation of this crate returns.
pub type PkResult<T> = Result<T, crate::error::PkError>;

} // verus!
