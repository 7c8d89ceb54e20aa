//! Raw external results, as the hosting binary hands them to the pipeline.
//!
//! Every adapter owns the rules for turning these plain values into typed
//! records; the binary only runs the external tools and reads the files.
//! A `None` stands for an invocation or read that failed, which every
//! adapter degrades to empty data.

use vstd::prelude::*;
use crate::context::WorkState;

verus! {

/// The raw command outputs gathered for one repository candidate.
#[derive(Debug, Clone)]
pub struct RawRepo {
    /// The candidate path, relative to the project root ("." for the root).
    pub path: String,
    /// Standard output of the branch query, when it succeeded.
    pub branch_output: Option<String>,
    /// Standard output of the detached-state describe query, when it
    /// succeeded.
    pub describe_output: Option<String>,
    /// The porcelain status lines, when the status query succeeded.
    pub status_lines: Option<Vec<String>>,
    /// Standard output of the last-commit query, when it succeeded.
    pub commit_output: Option<String>,
}

/// One build configuration file: its base name and its lines.
#[derive(Debug, Clone)]
pub struct RawBuildFile {
    /// The file name without directory or extension; the fallback target
    /// name.
    pub stem: String,
    /// The file's lines.
    pub lines: Vec<String>,
}

/// Everything the hosting binary gathered for one collection run.
#[derive(Debug, Clone)]
pub struct RawInputs {
    /// One entry per build configuration file found.
    pub build_files: Vec<RawBuildFile>,
    /// Lines of the build entry-point script, when it was readable.
    pub entry_lines: Option<Vec<String>>,
    /// Lines of the container runtime's list output, when it succeeded.
    pub container_lines: Option<Vec<String>>,
    /// The working directory's own repository data, when the working
    /// directory is itself a repository root.
    pub root_repo: Option<RawRepo>,
    /// Raw data for each repository candidate, in candidate order; consulted
    /// only when the working directory is not itself a repository.
    pub repos: Vec<RawRepo>,
    /// Lines of the command-history log, when it was readable.
    pub history_lines: Option<Vec<String>>,
    /// Lines of the device bridge's list output, when it succeeded.
    pub adb_lines: Option<Vec<String>>,
    /// Lines of the flash tool's list output, when it succeeded.
    pub fastboot_lines: Option<Vec<String>>,
    /// The saved work-state document, already decoded, when present and
    /// well-formed.
    pub primary_state: Option<WorkState>,
    /// Text of the hook-maintained todo-list document, when present.
    pub todos_doc: Option<String>,
    /// Text of the hook-maintained recent-files document, when present.
    pub files_doc: Option<String>,
}

impl RawInputs {
    /// Raw inputs with nothing gathered: every source absent.
    pub fn new_empty() -> (r: RawInputs)
        ensures
            r.build_files@.len() == 0,
            r.entry_lines is None,
            r.container_lines is None,
            r.root_repo is None,
            r.repos@.len() == 0,
            r.history_lines is None,
            r.adb_lines is None,
            r.fastboot_lines is None,
            r.primary_state is None,
            r.todos_doc is None,
            r.files_doc is None,
    {
        RawInputs {
            build_files: Vec::new(),
            entry_lines: None,
            container_lines: None,
            root_repo: None,
            repos: Vec::new(),
            history_lines: None,
            adb_lines: None,
            fastboot_lines: None,
            primary_state: None,
            todos_doc: None,
            files_doc: None,
        }
    }
}

} // verus!
