//! The order of versions and what it means for an update.

use std::cmp::Ordering;
use vstd::prelude::*;
use crate::versioning::{parsed_version, Version, VersionError};

verus! {

/// How `a` stands to `b`: by the first of major, minor and patch in which
/// they differ.
pub open spec fn order_of(a: Version, b: Version) -> Ordering {
    if a.major < b.major {
        Ordering::Less
    } else if a.major > b.major {
        Ordering::Greater
    } else if a.minor < b.minor {
        Ordering::Less
    } else if a.minor > b.minor {
        Ordering::Greater
    } else if a.patch < b.patch {
        Ordering::Less
    } else if a.patch > b.patch {
        Ordering::Greater
    } else {
        Ordering::Equal
    }
}

/// What to do about the latest release.
#[derive(Clone, Copy, Debug, PartialEq, Eq, Structural)]
pub enum UpdateDecision {
    /// The program is the latest release.
    UpToDate,
    /// The program is newer than the latest release: nothing is fetched.
    Ahead,
    /// The program is older than the latest release: fetch it.
    Update,
}

/// What to do where the latest release is `latest` and the program is
/// `current`.
pub open spec fn decision_of(latest: Version, current: Version) -> UpdateDecision {
    match order_of(latest, current) {
        Ordering::Equal => UpdateDecision::UpToDate,
        Ordering::Less => UpdateDecision::Ahead,
        Ordering::Greater => UpdateDecision::Update,
    }
}

impl Version {
    /// How the version stands to `other`.
    pub fn cmp(&self, other: &Self) -> (r: Ordering)
        ensures
            r == order_of(*self, *other),
    {
        if self.major < other.major {
            Ordering::Less
        } else if self.major > other.major {
            Ordering::Greater
        } else if self.minor < other.minor {
            Ordering::Less
        } else if self.minor > other.minor {
            Ordering::Greater
        } else if self.patch < other.patch {
            Ordering::Less
        } else if self.patch > other.patch {
            Ordering::Greater
        } else {
            Ordering::Equal
        }
    }

    /// How the version stands to `other`; every two versions compare.
    pub fn partial_cmp(&self, other: &Self) -> (r: Option<Ordering>)
        ensures
            r == Some(order_of(*self, *other)),
    {
        Some(self.cmp(other))
    }
}

/// Decides on an update from the tag of the latest release and the
/// program's own version.
pub fn try_update(latest_tag: &str, current: &str) -> (r: Result<UpdateDecision, VersionError>)
    ensures
        r == (match parsed_version(latest_tag@) {
            Err(e) => Err(e),
            Ok(latest) => match parsed_version(current@) {
                Err(e) => Err(e),
                Ok(current) => Ok(decision_of(latest, current)),
            },
        }),
{
    let latest = match Version::parse(latest_tag) {
        Ok(v) => v,
        Err(e) => {
            return Err(e);
        },
    };
    let current = match Version::parse(current) {
        Ok(v) => v,
        Err(e) => {
            return Err(e);
        },
    };
    match latest.cmp(&current) {
        Ordering::Equal => Ok(UpdateDecision::UpToDate),
        Ordering::Less => Ok(UpdateDecision::Ahead),
        Ordering::Greater => Ok(UpdateDecision::Update),
    }
}

/// The order of versions is a total order: a version equals itself,
/// turning two versions round turns their order round, and the order
/// carries over a version in between.
pub proof fn lemma_order_is_total(a: Version, b: Version, c: Version)
    ensures
        order_of(a, a) == Ordering::Equal,
        order_of(a, b) == Ordering::Equal <==> a == b,
        order_of(a, b) == Ordering::Less <==> order_of(b, a) == Ordering::Greater,
        order_of(a, b) == Ordering::Less && order_of(b, c) == Ordering::Less ==> order_of(a, c)
            == Ordering::Less,
{
}

} // verus!
