use crate::error::Error;
use vstd::prelude::*;

verus! {

/// The outcome of every fallible step of the reader.
pub type Result<T> = core::result::Result<T, Error>;

} // verus!
