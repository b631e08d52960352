//! Shorthands for the types that run through the whole library.

use crate::model::error::RsrqError;
use vstd::prelude::*;

verus! {

/// What every fallible operation of the library returns.
pub type RsrqResult<T> = Result<T, RsrqError>;

} // verus!
