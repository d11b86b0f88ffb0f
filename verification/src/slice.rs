use crate::error::Error;
use crate::result::Result;
use vstd::prelude::*;

verus! {

/// The element at `index`, or `InvalidFormat` where the slice ends before it.
pub fn get<T>(slice: &[T], index: usize) -> (r: Result<&T>)
    ensures
        index < slice@.len() ==> r == Ok::<&T, Error>(&slice@[index as int]),
        index >= slice@.len() ==> r == Err::<&T, Error>(Error::InvalidFormat),
{
    if index < slice.len() {
        Ok(&slice[index])
    } else {
        Err(Error::InvalidFormat)
    }
}

} // verus!
