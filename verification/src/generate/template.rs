use vstd::prelude::*;

verus! {

/// The number of entries in a list, as the template helpers count it.
pub fn length<T>(input: &Vec<T>) -> (r: usize)
    ensures
        r == input@.len(),
{
    input.len()
}

} // verus!
