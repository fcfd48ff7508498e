//! Comparing two version identifiers by semantic-version order.
//!
//! A text is read by the `semver` crate after a missing patch number has been
//! filled in. The numbers of two versions are compared here; where they tie
//! and the versions differ in pre-release or build metadata, the versions are
//! handed back to `semver`, which says which of the two comes later.

use vstd::prelude::*;

verus! {

/// The error with which the `semver` crate refuses a text.
#[verifier::external_type_specification]
#[verifier::external_body]
pub struct ExSemverError(semver::Error);

/// A semantic version as plain values: three numbers, and the texts of its
/// pre-release and of its build metadata, each empty where the version has
/// none.
#[derive(Debug, Clone, PartialEq, Eq)]
pub struct Version {
    pub major: u64,
    pub minor: u64,
    pub patch: u64,
    pub pre: String,
    pub build: String,
}

/// What a `Version` holds.
pub ghost struct VersionModel {
    pub major: nat,
    pub minor: nat,
    pub patch: nat,
    pub pre: Seq<char>,
    pub build: Seq<char>,
}

impl View for Version {
    type V = VersionModel;

    open spec fn view(&self) -> VersionModel {
        VersionModel {
            major: self.major as nat,
            minor: self.minor as nat,
            patch: self.patch as nat,
            pre: self.pre@,
            build: self.build@,
        }
    }
}

/// The version that `semver::Version::parse` reads from `text`; `None` where
/// it refuses the text.
pub uninterp spec fn semver_parse(text: Seq<char>) -> Option<VersionModel>;

/// Whether `semver` orders the version `a` strictly after the version `b`, by
/// the order of `semver::Version`. `None` where `semver` refuses the
/// pre-release or the build metadata of one of the two.
pub uninterp spec fn semver_newer(a: VersionModel, b: VersionModel) -> Option<bool>;

/// Which of two compared texts could not be read as a version.
#[derive(Debug, Clone, Copy, PartialEq, Eq, Structural)]
pub enum VersionParse {
    /// The first of the two compared texts is no version.
    First,
    /// The first is a version, the second is none.
    Second,
}

/// The number of dots in `text`.
pub open spec fn count_dots(text: Seq<char>) -> nat
    decreases text.len(),
{
    if text.len() == 0 {
        0
    } else {
        count_dots(text.drop_last()) + if text.last() == '.' {
            1nat
        } else {
            0nat
        }
    }
}

/// `text` with a zero patch number appended where it has exactly two
/// components between dots, and unchanged otherwise.
pub open spec fn normalized(text: Seq<char>) -> Seq<char> {
    if count_dots(text) == 1 {
        text + ".0"@
    } else {
        text
    }
}

/// `a` comes strictly after `b` in semantic-version order: by major, minor
/// and patch number, compared as numbers from left to right; where all three
/// tie, equal versions are not ordered and the others go by their
/// pre-release and build metadata, as far as `semver` accepts these.
pub open spec fn version_newer(a: VersionModel, b: VersionModel) -> bool {
    if a.major != b.major {
        a.major > b.major
    } else if a.minor != b.minor {
        a.minor > b.minor
    } else if a.patch != b.patch {
        a.patch > b.patch
    } else if a.pre == b.pre && a.build == b.build {
        false
    } else {
        semver_newer(a, b) == Some(true)
    }
}

/// What comparing the texts `v1` and `v2` gives: the first text that is no
/// version after normalizing is reported, the first argument before the
/// second; otherwise whether the first version is strictly newer.
pub open spec fn compare_outcome(v1: Seq<char>, v2: Seq<char>) -> Result<bool, VersionParse> {
    match semver_parse(normalized(v1)) {
        None => Err(VersionParse::First),
        Some(a) => match semver_parse(normalized(v2)) {
            None => Err(VersionParse::Second),
            Some(b) => Ok(version_newer(a, b)),
        },
    }
}

/// `semver::Version::parse`: reads `text` as a version and hands its fields
/// out as plain values.
#[verifier::external_body]
pub(crate) fn parse_version(text: &str) -> (r: Result<Version, semver::Error>)
    ensures
        match r {
            Ok(v) => semver_parse(text@) == Some(v@),
            Err(_) => semver_parse(text@) is None,
        },
{
    let v = semver::Version::parse(text)?;
    Ok(
        Version {
            major: v.major,
            minor: v.minor,
            patch: v.patch,
            pre: v.pre.as_str().to_string(),
            build: v.build.as_str().to_string(),
        },
    )
}

/// Makes a `semver::Version` of each of the two versions, with
/// `semver::Prerelease::new` and `semver::BuildMetadata::new` for their
/// texts, and compares the two by the order of `semver::Version`. It fails
/// where `semver` refuses one of the texts.
#[verifier::external_body]
pub(crate) fn semver_order(a: &Version, b: &Version) -> (r: Result<bool, semver::Error>)
    ensures
        match r {
            Ok(newer) => semver_newer(a@, b@) == Some(newer),
            Err(_) => semver_newer(a@, b@) is None,
        },
{
    let pre = semver::Prerelease::new(a.pre.as_str())?;
    let build = semver::BuildMetadata::new(a.build.as_str())?;
    let first = semver::Version { major: a.major, minor: a.minor, patch: a.patch, pre, build };
    let pre = semver::Prerelease::new(b.pre.as_str())?;
    let build = semver::BuildMetadata::new(b.build.as_str())?;
    let second = semver::Version { major: b.major, minor: b.minor, patch: b.patch, pre, build };
    Ok(first > second)
}

impl Version {
    /// Whether this version is strictly newer than `other`.
    pub fn newer_than(&self, other: &Version) -> (r: bool)
        ensures
            r == version_newer(self@, other@),
    {
        if self.major != other.major {
            self.major > other.major
        } else if self.minor != other.minor {
            self.minor > other.minor
        } else if self.patch != other.patch {
            self.patch > other.patch
        } else if self.pre == other.pre && self.build == other.build {
            false
        } else {
            match semver_order(self, other) {
                Ok(newer) => newer,
                Err(_) => false,
            }
        }
    }
}

/// Counts the dots of `text`.
fn dots_in(text: &Vec<char>) -> (n: usize)
    ensures
        n == count_dots(text@),
{
    let mut n: usize = 0;
    let mut i: usize = 0;
    while i < text.len()
        invariant
            i <= text.len(),
            n <= i,
            n == count_dots(text@.take(i as int)),
        decreases text.len() - i,
    {
        assert(text@.take(i + 1).drop_last() == text@.take(i as int));
        if text[i] == '.' {
            n += 1;
        }
        i += 1;
    }
    assert(text@.take(i as int) == text@);
    n
}

/// Fills in the patch number of a text with two components.
pub fn normalize(input: &str) -> (r: String)
    ensures
        r@ == normalized(input@),
{
    let text = crate::text::chars_of(input);
    let r = input.to_owned();
    if dots_in(&text) == 1 {
        r.concat(".0")
    } else {
        r
    }
}

/// Reads `input` as a version after filling in a missing patch number.
pub fn parse_semver(input: &str) -> (r: Option<Version>)
    ensures
        match r {
            Some(v) => semver_parse(normalized(input@)) == Some(v@),
            None => semver_parse(normalized(input@)) is None,
        },
{
    let text = normalize(input);
    match parse_version(text.as_str()) {
        Ok(v) => Some(v),
        Err(_) => None,
    }
}

/// Whether the version `v1` is strictly newer than the version `v2`.
///
/// Each text is normalized and then read; a text that is no version ends
/// the comparison, the first argument being read first.
pub fn compare_tags(v1: String, v2: String) -> (r: Result<bool, VersionParse>)
    ensures
        r == compare_outcome(v1@, v2@),
{
    let a = match parse_semver(v1.as_str()) {
        Some(version) => version,
        None => {
            return Err(VersionParse::First);
        },
    };
    let b = match parse_semver(v2.as_str()) {
        Some(version) => version,
        None => {
            return Err(VersionParse::Second);
        },
    };
    Ok(a.newer_than(&b))
}

/// A text with two components compares as the same text with `.0` appended.
pub proof fn lemma_two_components_pad(v: Seq<char>, other: Seq<char>)
    requires
        count_dots(v) == 1,
    ensures
        compare_outcome(v, other) == compare_outcome(v + ".0"@, other),
        compare_outcome(other, v) == compare_outcome(other, v + ".0"@),
{
    reveal_strlit(".0");
    let padded = v + ".0"@;
    assert(padded.drop_last().drop_last() == v);
    assert(padded.last() == '0');
    assert(padded.drop_last().last() == '.');
    assert(count_dots(padded.drop_last()) == 2);
    assert(count_dots(padded) == 2);
    assert(normalized(padded) == padded);
    assert(normalized(v) == padded);
}

/// A text with two components is not newer than the same text with `.0`
/// appended, nor the other way round.
pub proof fn lemma_padded_is_not_newer(v: Seq<char>)
    requires
        count_dots(v) == 1,
    ensures
        compare_outcome(v, v + ".0"@) != Ok::<bool, VersionParse>(true),
        compare_outcome(v + ".0"@, v) != Ok::<bool, VersionParse>(true),
{
    lemma_two_components_pad(v, v + ".0"@);
    lemma_two_components_pad(v, v);
}

/// No version is newer than itself: comparing a text with itself never
/// answers `true`.
pub proof fn lemma_not_newer_than_itself(v: Seq<char>)
    ensures
        compare_outcome(v, v) != Ok::<bool, VersionParse>(true),
{
}

} // verus!
