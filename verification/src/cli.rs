//! What the user asks for on the command line, as plain values.

use crate::release::ReleaseType;
use vstd::prelude::*;

verus! {

/// What to do once the newest release is known.
#[derive(Debug, Clone, Copy, PartialEq, Eq, Structural)]
pub enum Commands {
    /// Report the newest release.
    Check,
    /// Download and install it.
    Update,
}

/// How much is logged.
#[derive(Debug, Clone, Copy, PartialEq, Eq, Structural)]
pub enum LogLevel {
    Off,
    Error,
    Warn,
    Info,
    Debug,
    Trace,
}

/// The arguments of a run. Paths are kept as text.
#[derive(Debug, Clone, PartialEq, Eq)]
pub struct CommandArgs {
    /// The log file.
    pub log_path: String,
    /// The root directory of the installation.
    pub root_path: String,
    /// The directory for downloads; a fresh one where none is given.
    pub tmp_path: Option<String>,
    /// The owner of the repository that publishes the releases.
    pub repo_owner: String,
    /// The name of that repository.
    pub repo_name: String,
    /// The workflow file that builds the nightly releases.
    pub workflow_name: String,
    /// The branch that the nightly releases are built from.
    pub branch: String,
    /// The installed version.
    pub prism_version: Option<String>,
    /// The commit that the installed build was made from.
    pub git_commit: Option<String>,
    /// The identifier of the installed build: its platform and Qt version.
    pub build_artifact: Option<String>,
    /// The name of the application's binary, started after an update in
    /// place.
    pub app_name: Option<String>,
    /// The stream of releases to follow.
    pub release_type: ReleaseType,
    /// Update even where none is needed.
    pub force: bool,
    /// Whether the log is also written to standard output.
    pub log_stdout: bool,
    /// How much is logged.
    pub log_level: LogLevel,
    /// What to do.
    pub command: Commands,
}

} // verus!
