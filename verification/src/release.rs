//! Releases and the assets they list, as plain values.

use crate::number::{decimal_digits, decimal_text};
use crate::text::string_of;
use vstd::prelude::*;

verus! {

/// Which stream of builds an installation follows.
#[derive(Debug, Clone, Copy, PartialEq, Eq, Structural)]
pub enum ReleaseType {
    /// Tagged releases, compared by version.
    Stable,
    /// Builds of the development branch, compared by commit.
    Nightly,
}

/// One downloadable file of a release.
///
/// Addresses are kept as text and times as seconds since the Unix epoch.
#[derive(Debug, Clone, PartialEq, Eq)]
pub struct PrismArtifact {
    pub node_id: String,
    pub name: String,
    pub size_in_bytes: usize,
    pub url: String,
    pub download_url: String,
    pub created_at: i64,
    pub updated_at: i64,
}

/// A release: its name, its tag (a version or a commit), when it was made,
/// the assets it lists in their published order, and its changelog.
#[derive(Debug, Clone, PartialEq, Eq)]
pub struct PrismRelease {
    pub name: String,
    pub tag: String,
    pub created_at: i64,
    pub assets: Vec<PrismArtifact>,
    pub body: Option<String>,
}

/// One commit between the installed build and the newest one.
#[derive(Debug, Clone, PartialEq, Eq)]
pub struct CommitSummary {
    pub sha: String,
    pub message: String,
    pub html_url: String,
}

/// The address from which the build artifact numbered `artifact_id` of a
/// repository is downloaded.
pub open spec fn nightly_link(owner: Seq<char>, repo: Seq<char>, artifact_id: nat) -> Seq<char> {
    "https://nightly.link/"@ + owner + "/"@ + repo + "/actions/artifacts/"@ + decimal_text(
        artifact_id,
    ) + ".zip"@
}

/// The line of a commit in a changelog: its hash in brackets, its message,
/// its address in parentheses.
pub open spec fn commit_line(sha: Seq<char>, message: Seq<char>, html_url: Seq<char>) -> Seq<char> {
    "["@ + sha + "] "@ + message + " ("@ + html_url + ")"@
}

/// The lines of the commits, each but the first after a line feed.
pub open spec fn commit_lines(commits: Seq<CommitSummary>) -> Seq<char>
    decreases commits.len(),
{
    if commits.len() == 0 {
        Seq::empty()
    } else if commits.len() == 1 {
        commit_line(commits[0].sha@, commits[0].message@, commits[0].html_url@)
    } else {
        commit_lines(commits.drop_last()) + "\n"@ + commit_line(
            commits.last().sha@,
            commits.last().message@,
            commits.last().html_url@,
        )
    }
}

/// The changelog of a nightly build: a heading, the lines of the commits,
/// and the address of the full comparison.
pub open spec fn changelog_text(commits: Seq<CommitSummary>, compare_url: Seq<char>) -> Seq<char> {
    "#Changelog\n\n"@ + commit_lines(commits) + "\n"@ + "\nFull changelog: "@ + compare_url
}

/// The address from which a build artifact of a workflow run is downloaded.
pub fn nightly_download_url(repo_owner: &str, repo_name: &str, artifact_id: u64) -> (r: String)
    ensures
        r@ == nightly_link(repo_owner@, repo_name@, artifact_id as nat),
{
    let mut url = "https://nightly.link/".to_owned();
    url.append(repo_owner);
    url.append("/");
    url.append(repo_name);
    url.append("/actions/artifacts/");
    let digits = string_of(&decimal_digits(artifact_id as u128));
    url.append(digits.as_str());
    url.append(".zip");
    url
}

/// The changelog of a nightly build from the commits that lead to it.
pub fn format_changelog(commits: &Vec<CommitSummary>, compare_url: &str) -> (r: String)
    ensures
        r@ == changelog_text(commits@, compare_url@),
{
    let mut lines = String::new();
    let mut i: usize = 0;
    while i < commits.len()
        invariant
            i <= commits.len(),
            lines@ == commit_lines(commits@.take(i as int)),
        decreases commits.len() - i,
    {
        let ghost before = commits@.take(i as int);
        let ghost upto = commits@.take(i + 1);
        assert(upto.drop_last() == before);
        assert(upto.last() == commits@[i as int]);
        if i > 0 {
            lines.append("\n");
        }
        let commit = &commits[i];
        let ghost start = lines@;
        lines.append("[");
        lines.append(commit.sha.as_str());
        lines.append("] ");
        lines.append(commit.message.as_str());
        lines.append(" (");
        lines.append(commit.html_url.as_str());
        lines.append(")");
        assert(lines@ == start + commit_line(commit.sha@, commit.message@, commit.html_url@));
        assert(upto[0] == commits@[0]);
        i += 1;
    }
    assert(commits@.take(i as int) == commits@);
    let mut text = "#Changelog\n\n".to_owned();
    text.append(lines.as_str());
    text.append("\n");
    text.append("\nFull changelog: ");
    text.append(compare_url);
    text
}

} // verus!
