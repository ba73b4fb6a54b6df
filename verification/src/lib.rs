pub mod chars;
pub mod extract;
pub mod format;
pub mod laws;
pub mod model;
pub mod num;
pub mod pipeline;
pub mod text;

use vstd::prelude::*;

verus! {

/// Decides whether a commit counts as a merge commit: exactly two parents.
/// Commits with any other parent count are excluded from all downstream
/// processing, whatever their message says.
pub fn is_merge_commit(parent_count: usize) -> (r: bool)
    ensures
        r == (parent_count == 2),
{
    parent_count == 2
}

} // verus!
