//! The order of versions: by major, then minor, then patch.
use vstd::prelude::*;
use std::cmp::Ordering;
use vstd::std_specs::cmp::PartialOrdSpecImpl;
use crate::version::{SemVer, version_lt};

verus! {

/// How `a` compares with `b`.
pub open spec fn version_order(a: SemVer, b: SemVer) -> Ordering {
    if version_lt(a, b) {
        Ordering::Less
    } else if a == b {
        Ordering::Equal
    } else {
        Ordering::Greater
    }
}

impl PartialOrd for SemVer {
    fn partial_cmp(&self, other: &SemVer) -> (r: Option<Ordering>) {
        if self.major < other.major {
            Some(Ordering::Less)
        } else if self.major > other.major {
            Some(Ordering::Greater)
        } else if self.minor < other.minor {
            Some(Ordering::Less)
        } else if self.minor > other.minor {
            Some(Ordering::Greater)
        } else if self.patch < other.patch {
            Some(Ordering::Less)
        } else if self.patch > other.patch {
            Some(Ordering::Greater)
        } else {
            Some(Ordering::Equal)
        }
    }
}

impl PartialOrdSpecImpl for SemVer {
    open spec fn obeys_partial_cmp_spec() -> bool {
        true
    }

    open spec fn partial_cmp_spec(&self, other: &SemVer) -> Option<Ordering> {
        Some(version_order(*self, *other))
    }
}

} // verus!
