//! Git status of the files of the working tree.
use vstd::prelude::*;

verus! {

/// How a path differs from the last commit, as the change lists show it.
#[derive(Debug, Clone, Copy, PartialEq, Eq)]
pub enum GitFileStatus {
    Added,
    Modified,
}

} // verus!
