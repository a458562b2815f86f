//! The minimum toolchain version that a package declares, and the ceiling
//! that a caller sets.
use crate::error::FetchError;
use crate::version::{parsed_req, ComparatorView, ReqOp, SemanticVersion, VersionRequirement};
use vstd::prelude::*;

verus! {

/// Simplified representation of `package.rust-version`: a version triple
/// ordered lexicographically.
#[derive(Copy, Clone, PartialEq, Eq, Structural, PartialOrd, Ord, Hash, Debug)]
pub struct RustVersion {
    pub major: u64,
    pub minor: u64,
    pub patch: u64,
}

/// The lexicographic order of version triples.
pub open spec fn rust_version_le(a: RustVersion, b: RustVersion) -> bool {
    a.major < b.major || (a.major == b.major && (a.minor < b.minor || (a.minor == b.minor
        && a.patch <= b.patch)))
}

pub open spec fn or_zero(n: Option<u64>) -> u64 {
    match n {
        Some(v) => v,
        None => 0,
    }
}

/// A requirement stands for a toolchain version when it is one caret
/// comparator without a prerelease part.
pub open spec fn is_toolchain_req(cs: Seq<ComparatorView>) -> bool {
    cs.len() == 1 && cs[0].op == ReqOp::Caret && cs[0].pre.len() == 0
}

/// The toolchain version of such a requirement; a missing minor or patch is 0.
pub open spec fn toolchain_of(c: ComparatorView) -> RustVersion {
    RustVersion { major: c.major, minor: or_zero(c.minor), patch: or_zero(c.patch) }
}

/// What parsing a toolchain text gives.
pub open spec fn parse_toolchain_spec(text: Seq<char>) -> Result<RustVersion, FetchError> {
    match parsed_req(text) {
        Some(cs) => if is_toolchain_req(cs) {
            Ok(toolchain_of(cs[0]))
        } else {
            Err(FetchError::InvalidToolchainSpec)
        },
        None => Err(FetchError::InvalidToolchainSpec),
    }
}

impl RustVersion {
    /// Minimum-possible `package.rust-version`: 1.0.0.
    pub fn min_value() -> (r: RustVersion)
        ensures
            r == (RustVersion { major: 1, minor: 0, patch: 0 }),
    {
        RustVersion { major: 1, minor: 0, patch: 0 }
    }

    /// Maximum-possible `package.rust-version`: every part at its largest.
    pub fn max_value() -> (r: RustVersion)
        ensures
            r == (RustVersion { major: u64::MAX, minor: u64::MAX, patch: u64::MAX }),
    {
        RustVersion { major: u64::MAX, minor: u64::MAX, patch: u64::MAX }
    }

    /// Parses a toolchain version such as `1.32` or `1.32.0`: a single caret
    /// comparator without a prerelease part.
    pub fn parse(text: &str) -> (r: Result<RustVersion, FetchError>)
        ensures
            r == parse_toolchain_spec(text@),
    {
        match VersionRequirement::parse(text) {
            Ok(req) => {
                let cs = req.comparators();
                proof {
                    if cs@.len() > 0 {
                        assert(cs@.map_values(|c: crate::version::Comparator| c@)[0] == cs@[0]@);
                    }
                }
                if cs.len() == 1 && cs[0].op == ReqOp::Caret && cs[0].pre.as_str().is_empty() {
                    Ok(RustVersion::from_comparator(&cs[0]))
                } else {
                    Err(FetchError::InvalidToolchainSpec)
                }
            },
            Err(_) => Err(FetchError::InvalidToolchainSpec),
        }
    }

    fn from_comparator(c: &crate::version::Comparator) -> (r: RustVersion)
        ensures
            r == toolchain_of(c@),
    {
        RustVersion {
            major: c.major,
            minor: match c.minor {
                Some(m) => m,
                None => 0,
            },
            patch: match c.patch {
                Some(p) => p,
                None => 0,
            },
        }
    }

    /// The toolchain version of a requirement that has the toolchain form.
    pub fn from_version_req(req: &VersionRequirement) -> (r: RustVersion)
        requires
            is_toolchain_req(req@),
        ensures
            r == toolchain_of(req@[0]),
    {
        let cs = req.comparators();
        proof {
            assert(cs@.map_values(|c: crate::version::Comparator| c@)[0] == cs@[0]@);
        }
        RustVersion::from_comparator(&cs[0])
    }

    /// The numeric triple of a version.
    pub fn from_version(v: &SemanticVersion) -> (r: RustVersion)
        ensures
            r == (RustVersion { major: v@.major, minor: v@.minor, patch: v@.patch }),
    {
        RustVersion { major: v.major(), minor: v.minor(), patch: v.patch() }
    }

    /// Whether `self` is no later than `other`.
    pub fn le(&self, other: &RustVersion) -> (r: bool)
        ensures
            r == rust_version_le(*self, *other),
    {
        self.major < other.major || (self.major == other.major && (self.minor < other.minor || (
        self.minor == other.minor && self.patch <= other.patch)))
    }
}

impl std::str::FromStr for RustVersion {
    type Err = FetchError;

    fn from_str(text: &str) -> Result<RustVersion, FetchError> {
        RustVersion::parse(text)
    }
}

} // verus!
