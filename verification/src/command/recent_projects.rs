//! Projects opened recently.
use vstd::prelude::*;

verus! {

/// A recently opened project: its path, when it was last opened and edited,
/// and the files opened and edited last.
#[derive(Debug, Clone, PartialEq, Eq)]
pub struct RecentProjectEntry {
    pub project_path: String,
    pub last_open_at: u64,
    pub last_edit_at: u64,
    pub last_open_file: Option<String>,
    pub last_edit_file: Option<String>,
}

} // verus!
