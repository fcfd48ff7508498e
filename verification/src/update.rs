//! The decisions of a run: whether the newest release is wanted at all, and
//! how the unpacked download is installed.

use crate::cli::CommandArgs;
use crate::release::ReleaseType;
use crate::system::InstallationType;
use crate::text::{optional_text, same_text};
use crate::version::{compare_outcome, compare_tags, VersionParse};
use vstd::prelude::*;

verus! {

/// The name of the file, directly under the root, that is locked for as long
/// as an update session lasts.
pub const LOCK_FILE: &'static str = "update.lock";

/// Why a run cannot decide.
#[derive(Debug, Clone, Copy, PartialEq, Eq, Structural)]
pub enum ConfigError {
    /// No build identifier was given, or an empty one.
    MissingBuildArtifact,
    /// A stable release needs the installed version, and none was given.
    MissingVersion,
    /// A nightly release needs the installed commit, and none was given.
    MissingCommit,
    /// The tag of the release or the installed version is no version.
    VersionParse(VersionParse),
}

/// How the unpacked download is installed.
#[derive(Debug, Clone, Copy, PartialEq, Eq, Structural)]
pub enum InstallRoute {
    /// The installed files are backed up and the new ones moved in.
    InPlace,
    /// The download is handed to an installer.
    Installer,
}

/// The text of an argument that was given and is not empty.
pub open spec fn given(value: Option<Seq<char>>) -> Option<Seq<char>> {
    match value {
        Some(text) => if text.len() > 0 {
            Some(text)
        } else {
            None
        },
        None => None,
    }
}

/// Whether the release tagged `release_tag` is wanted.
///
/// A stable release is wanted where its tag is a strictly newer version than
/// the installed one. A nightly release is wanted where its tag is another
/// commit than the installed one.
pub open spec fn update_decision(
    release_type: ReleaseType,
    prism_version: Option<Seq<char>>,
    git_commit: Option<Seq<char>>,
    release_tag: Seq<char>,
) -> Result<bool, ConfigError> {
    match release_type {
        ReleaseType::Stable => match given(prism_version) {
            Some(installed) => match compare_outcome(release_tag, installed) {
                Ok(newer) => Ok(newer),
                Err(which) => Err(ConfigError::VersionParse(which)),
            },
            None => Err(ConfigError::MissingVersion),
        },
        ReleaseType::Nightly => match given(git_commit) {
            Some(installed) => Ok(installed != release_tag),
            None => Err(ConfigError::MissingCommit),
        },
    }
}

/// The route for an installation type and a download that was unpacked into
/// a directory or not: in place only for a portable installation and a
/// directory.
pub open spec fn route_of(installation_type: InstallationType, final_is_dir: bool) -> InstallRoute {
    if installation_type == InstallationType::Portable && final_is_dir {
        InstallRoute::InPlace
    } else {
        InstallRoute::Installer
    }
}

/// The argument if it was given and is not empty.
pub fn given_text(value: &Option<String>) -> (r: Option<&str>)
    ensures
        match r {
            Some(text) => given(optional_text(*value)) == Some(text@),
            None => given(optional_text(*value)) is None,
        },
{
    match value {
        Some(text) => {
            if text.as_str().is_empty() {
                None
            } else {
                Some(text.as_str())
            }
        },
        None => None,
    }
}

/// The build identifier of the run.
pub fn build_artifact_of(args: &CommandArgs) -> (r: Result<&str, ConfigError>)
    ensures
        match r {
            Ok(build) => given(optional_text(args.build_artifact)) == Some(build@),
            Err(error) => error == ConfigError::MissingBuildArtifact && given(
                optional_text(args.build_artifact),
            ) is None,
        },
{
    match given_text(&args.build_artifact) {
        Some(build) => Ok(build),
        None => Err(ConfigError::MissingBuildArtifact),
    }
}

/// Whether the release tagged `release_tag` is wanted by this run.
pub fn update_needed(args: &CommandArgs, release_tag: &str) -> (r: Result<bool, ConfigError>)
    ensures
        r == update_decision(
            args.release_type,
            optional_text(args.prism_version),
            optional_text(args.git_commit),
            release_tag@,
        ),
{
    match args.release_type {
        ReleaseType::Stable => match given_text(&args.prism_version) {
            Some(installed) => match compare_tags(release_tag.to_owned(), installed.to_owned()) {
                Ok(newer) => Ok(newer),
                Err(which) => Err(ConfigError::VersionParse(which)),
            },
            None => Err(ConfigError::MissingVersion),
        },
        ReleaseType::Nightly => match given_text(&args.git_commit) {
            Some(installed) => Ok(!same_text(installed, release_tag)),
            None => Err(ConfigError::MissingCommit),
        },
    }
}

/// How to install a download that was unpacked into a directory or not.
pub fn install_route(installation_type: InstallationType, final_is_dir: bool) -> (r: InstallRoute)
    ensures
        r == route_of(installation_type, final_is_dir),
{
    if installation_type == InstallationType::Portable && final_is_dir {
        InstallRoute::InPlace
    } else {
        InstallRoute::Installer
    }
}

} // verus!
