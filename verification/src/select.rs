//! Choosing, among the assets of a release, those that fit the platform and
//! the installation.
//!
//! An asset is judged by its file name alone. The rules read the name in
//! lowercase, but for the sidecar rule, which reads it as published.

use crate::number::{int_or_zero, parse_int_or_zero};
use crate::release::{PrismArtifact, PrismRelease};
use crate::system::InstallationType;
use crate::text::{
    chars_of, contains, contains_text, ends_with, ends_with_text, find_in, first_occurrence,
    lowercased, optional_text, string_of_range, to_lowercase,
};
use vstd::prelude::*;

verus! {

/// The error with which the `regex` crate refuses a pattern.
#[verifier::external_type_specification]
#[verifier::external_body]
pub struct ExRegexError(regex::Error);

/// Whether `regex::Regex::new` accepts `pattern`, as a pattern that is well
/// formed and within the size that the crate allows by default.
pub uninterp spec fn regex_accepts(pattern: Seq<char>) -> bool;

/// What the first capture group of `pattern` holds in the leftmost match of
/// `pattern` in `text`, as the `regex` crate finds it; `None` where the
/// pattern does not match or the group took no part in the match.
pub uninterp spec fn regex_first_group(pattern: Seq<char>, text: Seq<char>) -> Option<Seq<char>>;

/// `regex::Regex::new` on `pattern`, then `Regex::captures` on `text` and
/// `Captures::get(1)`. The call fails exactly where `Regex::new` refuses the
/// pattern, which depends on the pattern alone; where the pattern is
/// accepted, the result is the text of the first capture group in the
/// leftmost match, if there is one.
#[verifier::external_body]
pub(crate) fn first_group(pattern: &str, text: &str) -> (r: Result<Option<String>, regex::Error>)
    ensures
        r.is_ok() == regex_accepts(pattern@),
        r matches Ok(found) ==> optional_text(found) == regex_first_group(pattern@, text@),
{
    let compiled = regex::Regex::new(pattern)?;
    Ok(
        match compiled.captures(text) {
            Some(groups) => match groups.get(1) {
                Some(group) => Some(group.as_str().to_string()),
                None => None,
            },
            None => None,
        },
    )
}

/// Why no asset was selected.
#[derive(Debug, Clone, Copy, PartialEq, Eq, Structural)]
pub enum SelectError {
    /// No asset of the release passed every rule.
    NoArtifacts,
    /// A Qt marker had to be looked for, and the pattern engine refused the
    /// marker pattern.
    MarkerPattern,
}

/// The platform and the Qt version that a build identifier asks for.
#[derive(Debug, Clone, PartialEq, Eq)]
pub struct BuildTarget {
    pub platform: String,
    pub qt_version: String,
}

/// The pattern that finds a Qt marker in an asset name: `-qt` and then digits,
/// which form its first group.
pub open spec fn qt_marker_pattern() -> Seq<char> {
    "-qt(\\d+)"@
}

/// The platform part of a lowercase build identifier: what stands before the
/// first `-qt`, or the whole identifier where there is none.
pub open spec fn build_platform(lowered_build: Seq<char>) -> Seq<char> {
    match first_occurrence(lowered_build, "-qt"@) {
        Some(at) => lowered_build.take(at),
        None => lowered_build,
    }
}

/// The Qt version of a lowercase build identifier: what stands behind the
/// first `-qt`, or `6` where there is none.
pub open spec fn build_qt_version(lowered_build: Seq<char>) -> Seq<char> {
    match first_occurrence(lowered_build, "-qt"@) {
        Some(at) => lowered_build.skip(at + "-qt"@.len()),
        None => "6"@,
    }
}

/// Every rule that reads only the asset's name: `name` as published,
/// `lowered` its lowercase form.
///
/// In order: no sidecar file; an application image exactly for an
/// application-image installation; the platform named; no legacy asset for a
/// platform that is not legacy; the architecture of the host; on Windows
/// outside a portable installation no archive; a portable asset exactly for a
/// portable installation.
pub open spec fn name_rules_hold(
    name: Seq<char>,
    lowered: Seq<char>,
    platform: Seq<char>,
    installation_type: InstallationType,
    system_is_arm: bool,
) -> bool {
    &&& !ends_with_text(name, ".zsync"@)
    &&& (installation_type == InstallationType::Appimage) == ends_with_text(lowered, "appimage"@)
    &&& platform.len() > 0
    &&& contains_text(lowered, platform)
    &&& contains_text(lowered, "legacy"@) ==> contains_text(platform, "legacy"@)
    &&& contains_text(lowered, "arm64"@) == system_is_arm
    &&& !(contains_text(platform, "windows"@) && installation_type != InstallationType::Portable
        && (ends_with_text(lowered, ".zip"@) || ends_with_text(lowered, ".tar.gz"@)))
    &&& (installation_type == InstallationType::Portable) == contains_text(lowered, "portable"@)
}

/// The Qt rule: an asset that carries a Qt marker must carry the number of
/// the requested Qt version, both read as integers with zero for what is no
/// integer, and the requested version must not be empty.
pub open spec fn qt_rule_holds(marker: Option<Seq<char>>, qt_version: Seq<char>) -> bool {
    marker matches Some(digits) ==> qt_version.len() > 0 && int_or_zero(qt_version)
        == int_or_zero(digits)
}

/// An asset named `name` is valid for the build identifier `build`: it
/// passes the rules on its name, and the Qt rule with the marker that the
/// pattern engine finds in its lowercase name. No asset is valid where the
/// engine refuses the marker pattern.
pub open spec fn artifact_selected(
    name: Seq<char>,
    build: Seq<char>,
    installation_type: InstallationType,
    system_is_arm: bool,
) -> bool {
    let lowered = lowercased(name);
    let lowered_build = lowercased(build);
    &&& name_rules_hold(
        name,
        lowered,
        build_platform(lowered_build),
        installation_type,
        system_is_arm,
    )
    &&& regex_accepts(qt_marker_pattern())
    &&& qt_rule_holds(
        regex_first_group(qt_marker_pattern(), lowered),
        build_qt_version(lowered_build),
    )
}

/// Some asset passes the rules on its name, so that its Qt marker is looked
/// for.
pub open spec fn marker_is_needed(
    assets: Seq<PrismArtifact>,
    build: Seq<char>,
    installation_type: InstallationType,
    system_is_arm: bool,
) -> bool {
    exists|i: int|
        0 <= i < assets.len() && name_rules_hold(
            (#[trigger] assets[i]).name@,
            lowercased(assets[i].name@),
            build_platform(lowercased(build)),
            installation_type,
            system_is_arm,
        )
}

/// A valid asset is of the kind of the installation, and of no other: it is
/// an application image exactly for an application-image installation, and a
/// portable build exactly for a portable installation. It is never a sidecar
/// file, and it is built for the architecture of the host.
pub proof fn lemma_valid_asset_matches_installation(
    name: Seq<char>,
    build: Seq<char>,
    installation_type: InstallationType,
    system_is_arm: bool,
)
    requires
        artifact_selected(name, build, installation_type, system_is_arm),
    ensures
        ends_with_text(lowercased(name), "appimage"@) <==> installation_type
            == InstallationType::Appimage,
        contains_text(lowercased(name), "portable"@) <==> installation_type
            == InstallationType::Portable,
        contains_text(lowercased(name), "arm64"@) <==> system_is_arm,
        !ends_with_text(name, ".zsync"@),
{
}

/// The valid assets among `assets`, in their order.
pub open spec fn selected_assets(
    assets: Seq<PrismArtifact>,
    build: Seq<char>,
    installation_type: InstallationType,
    system_is_arm: bool,
) -> Seq<PrismArtifact> {
    assets.filter(
        |asset: PrismArtifact|
            artifact_selected(asset.name@, build, installation_type, system_is_arm),
    )
}

/// The assets that a sequence of references points to.
pub open spec fn referents(found: Seq<&PrismArtifact>) -> Seq<PrismArtifact> {
    found.map_values(|asset: &PrismArtifact| *asset)
}

/// Splits a lowercase build identifier at its first `-qt` into platform and
/// Qt version; without a `-qt` the Qt version is `6`.
pub fn split_build_id(lowered_build: &str) -> (target: BuildTarget)
    ensures
        target.platform@ == build_platform(lowered_build@),
        target.qt_version@ == build_qt_version(lowered_build@),
{
    let text = chars_of(lowered_build);
    let separator = chars_of("-qt");
    match find_in(&text, &separator) {
        Some(at) => {
            let platform = string_of_range(&text, 0, at);
            let qt_version = string_of_range(&text, at + separator.len(), text.len());
            BuildTarget { platform, qt_version }
        },
        None => BuildTarget {
            platform: string_of_range(&text, 0, text.len()),
            qt_version: "6".to_owned(),
        },
    }
}

/// Whether an asset passes every rule that reads only its name.
pub fn passes_name_rules(
    name: &str,
    lowered: &str,
    platform: &str,
    installation_type: InstallationType,
    system_is_arm: bool,
) -> (r: bool)
    ensures
        r == name_rules_hold(name@, lowered@, platform@, installation_type, system_is_arm),
{
    let name = chars_of(name);
    let lowered = chars_of(lowered);
    let platform = chars_of(platform);
    if ends_with(&name, &chars_of(".zsync")) {
        return false;
    }
    let for_appimage = ends_with(&lowered, &chars_of("appimage"));
    if (installation_type == InstallationType::Appimage) != for_appimage {
        return false;
    }
    if platform.len() == 0 || !contains(&lowered, &platform) {
        return false;
    }
    let legacy = chars_of("legacy");
    if contains(&lowered, &legacy) && !contains(&platform, &legacy) {
        return false;
    }
    if contains(&lowered, &chars_of("arm64")) != system_is_arm {
        return false;
    }
    let is_archive = ends_with(&lowered, &chars_of(".zip")) || ends_with(
        &lowered,
        &chars_of(".tar.gz"),
    );
    if contains(&platform, &chars_of("windows")) && installation_type
        != InstallationType::Portable && is_archive {
        return false;
    }
    let for_portable = contains(&lowered, &chars_of("portable"));
    (installation_type == InstallationType::Portable) == for_portable
}

/// Whether an asset passes the Qt rule, given the Qt marker found in its
/// lowercase name.
pub fn passes_qt_rule(marker: &Option<String>, qt_version: &str) -> (r: bool)
    ensures
        r == qt_rule_holds(optional_text(*marker), qt_version@),
{
    match marker {
        Some(digits) => {
            let wanted = chars_of(qt_version);
            let offered = chars_of(digits.as_str());
            wanted.len() > 0 && parse_int_or_zero(&wanted) == parse_int_or_zero(&offered)
        },
        None => true,
    }
}

/// What a selection gives: the valid assets in their order where there is
/// one; `NoArtifacts` where there is none; `MarkerPattern` where a Qt marker
/// has to be looked for and the pattern engine refuses the marker pattern.
pub open spec fn selection_outcome(
    assets: Seq<PrismArtifact>,
    build: Seq<char>,
    installation_type: InstallationType,
    system_is_arm: bool,
) -> Result<Seq<PrismArtifact>, SelectError> {
    let valid = selected_assets(assets, build, installation_type, system_is_arm);
    if !regex_accepts(qt_marker_pattern()) && marker_is_needed(
        assets,
        build,
        installation_type,
        system_is_arm,
    ) {
        Err(SelectError::MarkerPattern)
    } else if valid.len() == 0 {
        Err(SelectError::NoArtifacts)
    } else {
        Ok(valid)
    }
}

/// A selection fails exactly when no asset is valid.
pub proof fn lemma_selection_fails_without_valid_asset(
    assets: Seq<PrismArtifact>,
    build: Seq<char>,
    installation_type: InstallationType,
    system_is_arm: bool,
)
    ensures
        selection_outcome(assets, build, installation_type, system_is_arm) is Err
            <==> selected_assets(assets, build, installation_type, system_is_arm).len() == 0,
{
    let valid = selected_assets(assets, build, installation_type, system_is_arm);
    let rule = |asset: PrismArtifact|
        artifact_selected(asset.name@, build, installation_type, system_is_arm);
    if !regex_accepts(qt_marker_pattern()) && valid.len() > 0 {
        assets.lemma_filter_pred(rule, 0);
        assert(rule(valid[0]));
    }
}

/// Selects the assets of `release` that are valid for the build identifier
/// `build_artifact`, the installation type and the host's architecture, in
/// the order in which the release lists them.
///
/// The selection fails exactly when no asset is valid. The Qt marker of an
/// asset is looked for only when the asset has passed the rules on its name;
/// where the pattern engine then refuses the marker pattern, the failure is
/// `MarkerPattern`, and `NoArtifacts` in every other case.
pub fn select_valid_artifacts<'a>(
    release: &'a PrismRelease,
    build_artifact: String,
    installation_type: InstallationType,
    system_is_arm: bool,
) -> (r: Result<Vec<&'a PrismArtifact>, SelectError>)
    ensures
        match r {
            Ok(found) => selection_outcome(
                release.assets@,
                build_artifact@,
                installation_type,
                system_is_arm,
            ) == Ok::<Seq<PrismArtifact>, SelectError>(referents(found@)),
            Err(error) => selection_outcome(
                release.assets@,
                build_artifact@,
                installation_type,
                system_is_arm,
            ) == Err::<Seq<PrismArtifact>, SelectError>(error),
        },
        r is Ok <==> selected_assets(
            release.assets@,
            build_artifact@,
            installation_type,
            system_is_arm,
        ).len() > 0,
        r matches Ok(found) ==> found@.len() > 0,
        r matches Err(SelectError::MarkerPattern) <==> {
            &&& !regex_accepts(qt_marker_pattern())
            &&& marker_is_needed(
                release.assets@,
                build_artifact@,
                installation_type,
                system_is_arm,
            )
        },
{
    let lowered_build = to_lowercase(build_artifact.as_str());
    let target = split_build_id(lowered_build.as_str());
    let mut found: Vec<&'a PrismArtifact> = Vec::new();
    let ghost rule = |asset: PrismArtifact|
        artifact_selected(asset.name@, build_artifact@, installation_type, system_is_arm);
    let mut i: usize = 0;
    proof {
        lemma_selection_fails_without_valid_asset(
            release.assets@,
            build_artifact@,
            installation_type,
            system_is_arm,
        );
        assert(release.assets@.take(0).filter(rule) == Seq::<PrismArtifact>::empty()) by {
            reveal(Seq::filter);
        }
        assert(referents(found@) == Seq::<PrismArtifact>::empty());
    }
    while i < release.assets.len()
        invariant
            i <= release.assets.len(),
            lowered_build@ == lowercased(build_artifact@),
            target.platform@ == build_platform(lowered_build@),
            target.qt_version@ == build_qt_version(lowered_build@),
            rule == (|asset: PrismArtifact|
                artifact_selected(asset.name@, build_artifact@, installation_type, system_is_arm)),
            referents(found@) == release.assets@.take(i as int).filter(rule),
            forall|j: int|
                0 <= j < i && name_rules_hold(
                    (#[trigger] release.assets@[j]).name@,
                    lowercased(release.assets@[j].name@),
                    build_platform(lowercased(build_artifact@)),
                    installation_type,
                    system_is_arm,
                ) ==> regex_accepts(qt_marker_pattern()),
            selection_outcome(
                release.assets@,
                build_artifact@,
                installation_type,
                system_is_arm,
            ) is Err <==> selected_assets(
                release.assets@,
                build_artifact@,
                installation_type,
                system_is_arm,
            ).len() == 0,
        decreases release.assets.len() - i,
    {
        let asset = &release.assets[i];
        let lowered = to_lowercase(asset.name.as_str());
        let mut keep = false;
        if passes_name_rules(
            asset.name.as_str(),
            lowered.as_str(),
            target.platform.as_str(),
            installation_type,
            system_is_arm,
        ) {
            match first_group("-qt(\\d+)", lowered.as_str()) {
                Ok(marker) => {
                    keep = passes_qt_rule(&marker, target.qt_version.as_str());
                },
                Err(_) => {
                    assert(release.assets@[i as int] == *asset);
                    return Err(SelectError::MarkerPattern);
                },
            }
        }
        proof {
            let before = release.assets@.take(i as int);
            let upto = release.assets@.take(i + 1);
            assert(keep == rule(*asset));
            assert(upto == before.push(*asset));
            before.lemma_filter_push(*asset, rule);
            assert(referents(found@.push(asset)) == referents(found@).push(*asset));
        }
        if keep {
            found.push(asset);
        }
        i += 1;
    }
    assert(release.assets@.take(i as int) == release.assets@);
    if found.len() == 0 {
        Err(SelectError::NoArtifacts)
    } else {
        Ok(found)
    }
}

} // verus!
