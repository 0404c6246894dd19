//! The order of versions.

use std::cmp::Ordering;

use vstd::prelude::*;

use super::version::{release_lt, version_lt, Release, Version};

verus! {

/// How two versions compare, by [`version_lt`].
pub open spec fn version_ordering(a: Version, b: Version) -> Ordering {
    if version_lt(a, b) {
        Ordering::Less
    } else if a == b {
        Ordering::Equal
    } else {
        Ordering::Greater
    }
}

/// Compares two unsigned numbers.
fn order_u32(a: u32, b: u32) -> (res: Ordering)
    ensures
        res == if a < b {
            Ordering::Less
        } else if a == b {
            Ordering::Equal
        } else {
            Ordering::Greater
        },
{
    if a < b {
        Ordering::Less
    } else if a == b {
        Ordering::Equal
    } else {
        Ordering::Greater
    }
}

/// Compares two releases by [`release_lt`].
fn order_release(a: Option<Release>, b: Option<Release>) -> (res: Ordering)
    ensures
        res == if release_lt(a, b) {
            Ordering::Less
        } else if a == b {
            Ordering::Equal
        } else {
            Ordering::Greater
        },
{
    match (a, b) {
        (None, None) => Ordering::Equal,
        (None, Some(_)) => Ordering::Less,
        (Some(_), None) => Ordering::Greater,
        (Some(Release::PreRelease(x)), Some(Release::PreRelease(y))) => order_u32(x, y),
        (Some(Release::PreRelease(_)), Some(Release::ReleaseCandidate(_))) => Ordering::Less,
        (Some(Release::ReleaseCandidate(_)), Some(Release::PreRelease(_))) => Ordering::Greater,
        (Some(Release::ReleaseCandidate(x)), Some(Release::ReleaseCandidate(y))) => order_u32(x, y),
    }
}

impl PartialOrd for Version {
    /// Versions compare by major, minor and patch number, then by release: a version without a
    /// release comes before its pre-releases, which come before its release candidates.
    fn partial_cmp(&self, other: &Version) -> (res: Option<Ordering>) {
        match order_u32(self.major, other.major) {
            Ordering::Equal => {},
            order => {
                return Some(order);
            },
        }
        match order_u32(self.minor, other.minor) {
            Ordering::Equal => {},
            order => {
                return Some(order);
            },
        }
        match order_u32(self.patch, other.patch) {
            Ordering::Equal => {},
            order => {
                return Some(order);
            },
        }
        Some(order_release(self.release, other.release))
    }
}

impl vstd::std_specs::cmp::PartialOrdSpecImpl for Version {
    open spec fn obeys_partial_cmp_spec() -> bool {
        true
    }

    open spec fn partial_cmp_spec(&self, other: &Version) -> Option<Ordering> {
        Some(version_ordering(*self, *other))
    }
}

/// Law: the order of versions is a strict total order.
pub proof fn law_version_order(a: Version, b: Version, c: Version)
    ensures
        !version_lt(a, a),
        version_lt(a, b) && version_lt(b, c) ==> version_lt(a, c),
        version_lt(a, b) || a == b || version_lt(b, a),
        !(version_lt(a, b) && version_lt(b, a)),
{
}

/// Law: versions are ordered by major number, then minor, then patch; among versions with the
/// same numbers, the one without a release comes first, then the pre-releases by their number,
/// then the release candidates by their number (as `derive(Ord)` orders `Option<Release>`).
pub proof fn law_version_order_by_numbers(major: u32, minor: u32, patch: u32, x: u32, y: u32, a: Version, b: Version)
    ensures
        a.major < b.major ==> version_lt(a, b),
        a.major == b.major && a.minor < b.minor ==> version_lt(a, b),
        a.major == b.major && a.minor == b.minor && a.patch < b.patch ==> version_lt(a, b),
        x < y ==> version_lt(
            Version { major, minor, patch, release: Some(Release::PreRelease(x)) },
            Version { major, minor, patch, release: Some(Release::PreRelease(y)) },
        ),
        x < y ==> version_lt(
            Version { major, minor, patch, release: Some(Release::ReleaseCandidate(x)) },
            Version { major, minor, patch, release: Some(Release::ReleaseCandidate(y)) },
        ),
        version_lt(
            Version { major, minor, patch, release: Some(Release::PreRelease(x)) },
            Version { major, minor, patch, release: Some(Release::ReleaseCandidate(y)) },
        ),
        version_lt(
            Version { major, minor, patch, release: None },
            Version { major, minor, patch, release: Some(Release::PreRelease(x)) },
        ),
        version_ordering(a, b) == Ordering::Less <==> version_lt(a, b),
{
}

} // verus!
