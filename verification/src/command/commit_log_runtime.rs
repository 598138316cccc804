//! What the commit log asks of the git worker and what the worker reports.
use vstd::prelude::*;

verus! {

/// One commit in the log.
#[derive(Debug, Clone, PartialEq, Eq)]
pub struct CommitEntry {
    pub hash: String,
    pub full_hash: String,
    pub author: String,
    pub date: String,
    pub message: String,
}

/// A file a commit touched, with its status letter (A, D, M, R, ...).
#[derive(Debug, Clone, PartialEq, Eq)]
pub struct CommitFileEntry {
    pub path: String,
    pub status: char,
}

/// Everything shown about one commit.
#[derive(Debug, Clone, PartialEq, Eq)]
pub struct CommitDetail {
    pub full_hash: String,
    pub author: String,
    pub author_email: String,
    pub date: String,
    pub message: String,
    pub files: Vec<CommitFileEntry>,
    pub diff_lines: Vec<String>,
}

/// A request for the git worker.
#[derive(Debug, Clone, PartialEq, Eq)]
pub enum CommitLogCommand {
    /// `count` commits of the log, after skipping `skip`.
    LoadPage { project_root: String, skip: usize, count: usize },
    /// The details and diff of one commit.
    LoadDetail { project_root: String, hash: String },
}

/// A report from the git worker.
#[derive(Debug, Clone, PartialEq, Eq)]
pub enum CommitLogEvent {
    PageLoaded { commits: Vec<CommitEntry>, has_more: bool, is_append: bool },
    DetailLoaded { hash: String, detail: CommitDetail },
    Error { message: String },
}

} // verus!
