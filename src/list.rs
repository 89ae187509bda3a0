//! Indexed access to list signals.
use vstd::prelude::*;

verus! {

/// Failure of an indexed list access.
#[derive(Debug, Clone, Copy, PartialEq, Eq, Structural)]
pub enum ListError {
    /// The index lies outside the list; it carries the index as the
    /// platform's unsigned size (a negative index wraps around).
    IndexOutOfBounds(usize),
}

/// The element of `list` at `index`, or `IndexOutOfBounds` when `index` is
/// negative or not below the length.
pub fn get<T: Copy>(list: &Vec<T>, index: i32) -> (r: Result<T, ListError>)
    ensures
        0 <= index < list@.len() ==> r == Ok::<T, ListError>(list@[index as int]),
        !(0 <= index < list@.len()) ==> r == Err::<T, ListError>(
            ListError::IndexOutOfBounds(index as usize),
        ),
{
    if index < 0 || index as usize >= list.len() {
        return Err(ListError::IndexOutOfBounds(index as usize));
    }
    Ok(list[index as usize])
}

} // verus!
