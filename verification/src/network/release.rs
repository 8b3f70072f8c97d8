//! Release versions, as the `semver` crate reads and compares them.

use crate::text::decimal;
use semver::Version;
use vstd::prelude::*;

verus! {

/// A version of the `semver` crate.
#[verifier::external_type_specification]
#[verifier::external_body]
pub struct ExVersion(semver::Version);

/// What the `semver` crate says of a text that is no version.
#[verifier::external_type_specification]
#[verifier::external_body]
pub struct ExVersionError(semver::Error);

/// What a version holds: its three numbers, its pre-release identifier and its build metadata.
pub struct VersionParts {
    pub major: u64,
    pub minor: u64,
    pub patch: u64,
    pub pre: Seq<char>,
    pub build: Seq<char>,
}

/// The version of a plain release: three numbers and nothing else.
pub open spec fn plain(major: u64, minor: u64, patch: u64) -> VersionParts {
    VersionParts { major, minor, patch, pre: Seq::empty(), build: Seq::empty() }
}

/// The text of a plain release: three numbers with dots between them.
pub open spec fn dotted(major: u64, minor: u64, patch: u64) -> Seq<char> {
    decimal(major as nat).push('.') + decimal(minor as nat).push('.') + decimal(patch as nat)
}

/// Whether the first of two triples of numbers is greater than the second, the first number
/// deciding before the second and the second before the third.
pub open spec fn later(a: VersionParts, b: VersionParts) -> bool {
    ||| a.major > b.major
    ||| a.major == b.major && a.minor > b.minor
    ||| a.major == b.major && a.minor == b.minor && a.patch > b.patch
}

/// Whether `version` is the plain release `release` or comes after it. The numbers decide; where
/// they are equal, `version` comes up to `release` unless it is a pre-release of it.
pub open spec fn reaches(version: VersionParts, release: VersionParts) -> bool {
    later(version, release) || (!later(release, version) && version.pre.len() == 0)
}

/// What a version holds, in its public fields.
pub uninterp spec fn version_parts(version: Version) -> VersionParts;

/// The version that a text spells, as `semver::Version::parse` reads it.
pub uninterp spec fn parsed_version(text: Seq<char>) -> Option<VersionParts>;

/// Calls `semver::Version::parse`. What it makes of a text is `parsed_version` of that text; three
/// numerals without leading zeros, with dots between them, are the plain release of these numbers.
#[verifier::external_body]
pub(crate) fn parse_version(text: &str) -> (version: Result<Version, semver::Error>)
    ensures
        match version {
            Ok(version) => parsed_version(text@) == Some(version_parts(version)),
            Err(_) => parsed_version(text@) is None,
        },
        forall|major: u64, minor: u64, patch: u64|
            text@ == #[trigger] dotted(major, minor, patch) ==> version is Ok && version_parts(
                version->Ok_0,
            ) == plain(major, minor, patch),
{
    Version::parse(text)
}

/// Calls the `>=` of `semver::Version` with a plain release on the right. A version's fields are
/// compared in the order in which they are declared: the three numbers, then the pre-release
/// identifier, of which the empty one is the greatest, then the build metadata, of which the empty
/// one is the least. So a version comes up to a plain release exactly as `reaches` says.
#[verifier::external_body]
pub(crate) fn version_at_least(version: &Version, other: &Version) -> (reached: bool)
    requires
        version_parts(*other).pre.len() == 0,
        version_parts(*other).build.len() == 0,
    ensures
        reached == reaches(version_parts(*version), version_parts(*other)),
{
    version >= other
}

/// A plain release holds its three numbers and nothing else, and is written as these numbers with
/// dots between them.
pub proof fn law_plain_release(major: u64, minor: u64, patch: u64)
    ensures
        plain(major, minor, patch).major == major,
        plain(major, minor, patch).minor == minor,
        plain(major, minor, patch).patch == patch,
        plain(major, minor, patch).pre.len() == 0,
        plain(major, minor, patch).build.len() == 0,
        dotted(major, minor, patch) == decimal(major as nat) + seq!['.'] + decimal(minor as nat)
            + seq!['.'] + decimal(patch as nat),
{
    assert(dotted(major, minor, patch) =~= decimal(major as nat) + seq!['.'] + decimal(
        minor as nat,
    ) + seq!['.'] + decimal(patch as nat));
}

/// Versions are compared number by number, the first that differs deciding; a version with the
/// numbers of a release comes up to it exactly if it is no pre-release.
pub proof fn law_first_difference_decides(version: VersionParts, release: VersionParts)
    ensures
        version.major > release.major ==> reaches(version, release) && later(version, release),
        version.major < release.major ==> !reaches(version, release) && !later(version, release),
        version.major == release.major ==> {
            &&& version.minor > release.minor ==> reaches(version, release) && later(
                version,
                release,
            )
            &&& version.minor < release.minor ==> !reaches(version, release) && !later(
                version,
                release,
            )
            &&& version.minor == release.minor ==> {
                &&& version.patch > release.patch ==> reaches(version, release) && later(
                    version,
                    release,
                )
                &&& version.patch < release.patch ==> !reaches(version, release) && !later(
                    version,
                    release,
                )
                &&& version.patch == release.patch ==> !later(version, release) && (reaches(
                    version,
                    release,
                ) <==> version.pre.len() == 0)
            }
        },
{
}

} // verus!
