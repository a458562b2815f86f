//! Semantic versions and version requirements, parsed, compared and matched
//! by the `semver` crate and mirrored here as plain values.
use std::cmp::Ordering;
use vstd::prelude::*;

verus! {

#[verifier::external_type_specification]
#[verifier::external_body]
pub struct ExSemverVersion(semver::Version);

#[verifier::external_type_specification]
#[verifier::external_body]
pub struct ExSemverVersionReq(semver::VersionReq);

#[verifier::external_type_specification]
#[verifier::external_body]
pub struct ExSemverError(semver::Error);

#[verifier::external_type_specification]
#[verifier::external_body]
pub struct ExSemverOp(semver::Op);

/// The plain content of a version: `major.minor.patch-pre+build`.
pub struct VersionView {
    pub major: u64,
    pub minor: u64,
    pub patch: u64,
    pub pre: Seq<char>,
    pub build: Seq<char>,
}

/// A semantic version as read from a registry index.
///
/// The numeric parts and the prerelease and build texts are held as plain
/// values; the parsed `semver` value rides along for the comparisons that
/// `semver` performs.
pub struct SemanticVersion {
    major: u64,
    minor: u64,
    patch: u64,
    pre: String,
    build: String,
    inner: semver::Version,
}

impl View for SemanticVersion {
    type V = VersionView;

    closed spec fn view(&self) -> VersionView {
        VersionView {
            major: self.major,
            minor: self.minor,
            patch: self.patch,
            pre: self.pre@,
            build: self.build@,
        }
    }
}

/// The comparison operator of one comparator of a requirement.
#[derive(PartialEq, Eq, Structural, Clone, Copy, Debug)]
pub enum ReqOp {
    Exact,
    Greater,
    GreaterEq,
    Less,
    LessEq,
    Tilde,
    Caret,
    Wildcard,
    Other,
}

/// One comparator of a requirement, such as `>=1.2` or `^0.3.1-beta`.
pub struct Comparator {
    pub op: ReqOp,
    pub major: u64,
    pub minor: Option<u64>,
    pub patch: Option<u64>,
    pub pre: String,
}

pub struct ComparatorView {
    pub op: ReqOp,
    pub major: u64,
    pub minor: Option<u64>,
    pub patch: Option<u64>,
    pub pre: Seq<char>,
}

impl View for Comparator {
    type V = ComparatorView;

    open spec fn view(&self) -> ComparatorView {
        ComparatorView {
            op: self.op,
            major: self.major,
            minor: self.minor,
            patch: self.patch,
            pre: self.pre@,
        }
    }
}

/// A version requirement: the conjunction of its comparators.
pub struct VersionRequirement {
    comparators: Vec<Comparator>,
    inner: semver::VersionReq,
}

impl View for VersionRequirement {
    type V = Seq<ComparatorView>;

    closed spec fn view(&self) -> Seq<ComparatorView> {
        self.comparators@.map_values(|c: Comparator| c@)
    }
}

/// What `semver::Version::parse` makes of a text, `None` where it refuses it.
pub uninterp spec fn parsed_version(text: Seq<char>) -> Option<VersionView>;

/// What `semver::VersionReq::parse` makes of a text, `None` where it refuses it.
pub uninterp spec fn parsed_req(text: Seq<char>) -> Option<Seq<ComparatorView>>;

/// Whether `semver::VersionReq::matches` accepts the version.
pub uninterp spec fn req_matches(req: Seq<ComparatorView>, v: VersionView) -> bool;

/// The total order of `semver::Version` (precedence, then build metadata).
pub uninterp spec fn version_order(a: VersionView, b: VersionView) -> Ordering;

pub open spec fn digit_char(d: nat) -> char {
    if d == 0 { '0' }
    else if d == 1 { '1' }
    else if d == 2 { '2' }
    else if d == 3 { '3' }
    else if d == 4 { '4' }
    else if d == 5 { '5' }
    else if d == 6 { '6' }
    else if d == 7 { '7' }
    else if d == 8 { '8' }
    else { '9' }
}

/// The decimal digits of `n`, without leading zeros.
pub open spec fn decimal(n: nat) -> Seq<char>
    decreases n,
{
    if n < 10 {
        seq![digit_char(n)]
    } else {
        decimal(n / 10).push(digit_char(n % 10))
    }
}

/// The text of a version: `major.minor.patch`, then `-pre` and `+build`
/// where those are present.
pub open spec fn version_text(v: VersionView) -> Seq<char> {
    decimal(v.major as nat) + seq!['.'] + decimal(v.minor as nat) + seq!['.'] + decimal(
        v.patch as nat,
    ) + (if v.pre.len() > 0 {
        seq!['-'] + v.pre
    } else {
        Seq::empty()
    }) + (if v.build.len() > 0 {
        seq!['+'] + v.build
    } else {
        Seq::empty()
    })
}

/// A version is a prerelease when it carries a prerelease part.
pub open spec fn is_prerelease_view(v: VersionView) -> bool {
    v.pre.len() > 0
}

/// Relies on semver::Version::parse: the text's parts, or its error.
#[verifier::external_body]
fn semver_parse_version(text: &str) -> (r: Result<SemanticVersion, semver::Error>)
    ensures
        r is Ok <==> parsed_version(text@) is Some,
        r is Ok ==> r->Ok_0@ == parsed_version(text@)->Some_0,
{
    let inner = semver::Version::parse(text)?;
    Ok(SemanticVersion {
        major: inner.major,
        minor: inner.minor,
        patch: inner.patch,
        pre: inner.pre.as_str().to_string(),
        build: inner.build.as_str().to_string(),
        inner,
    })
}

/// Relies on semver::VersionReq::parse: the comparators of the text, or its error.
#[verifier::external_body]
fn semver_parse_req(text: &str) -> (r: Result<VersionRequirement, semver::Error>)
    ensures
        r is Ok <==> parsed_req(text@) is Some,
        r is Ok ==> r->Ok_0@ == parsed_req(text@)->Some_0,
{
    let inner = semver::VersionReq::parse(text)?;
    let comparators = inner.comparators.iter().map(|c| Comparator {
        op: req_op(c.op),
        major: c.major,
        minor: c.minor,
        patch: c.patch,
        pre: c.pre.as_str().to_string(),
    }).collect();
    Ok(VersionRequirement { comparators, inner })
}

/// Tells the variants of semver::Op apart, one variant of `ReqOp` for each.
#[verifier::external_body]
fn req_op(op: semver::Op) -> ReqOp {
    match op {
        semver::Op::Exact => ReqOp::Exact,
        semver::Op::Greater => ReqOp::Greater,
        semver::Op::GreaterEq => ReqOp::GreaterEq,
        semver::Op::Less => ReqOp::Less,
        semver::Op::LessEq => ReqOp::LessEq,
        semver::Op::Tilde => ReqOp::Tilde,
        semver::Op::Caret => ReqOp::Caret,
        semver::Op::Wildcard => ReqOp::Wildcard,
        _ => ReqOp::Other,
    }
}

/// Relies on semver::VersionReq::matches, which reads only the comparators
/// and the version's parts.
#[verifier::external_body]
fn semver_matches(req: &VersionRequirement, v: &SemanticVersion) -> (r: bool)
    ensures
        r == req_matches(req@, v@),
{
    req.inner.matches(&v.inner)
}

/// Relies on semver's `Ord for Version`, which reads only the version's
/// parts and, as `Ord` requires, is a total order: antisymmetric and
/// transitive.
#[verifier::external_body]
fn semver_cmp(a: &SemanticVersion, b: &SemanticVersion) -> (r: Ordering)
    ensures
        r == version_order(a@, b@),
        r == Ordering::Greater <==> version_order(b@, a@) == Ordering::Less,
        forall|c: VersionView|
            r != Ordering::Greater && #[trigger] version_order(c, a@) != Ordering::Greater
                ==> version_order(c, b@) != Ordering::Greater,
{
    a.inner.cmp(&b.inner)
}

/// Relies on semver's `Display for Version`: `major.minor.patch[-pre][+build]`.
#[verifier::external_body]
fn semver_to_string(v: &SemanticVersion) -> (r: String)
    ensures
        r@ == version_text(v@),
{
    v.inner.to_string()
}

impl SemanticVersion {
    /// Parses a version such as `1.2.3-beta.1+build5`.
    pub fn parse(text: &str) -> (r: Result<SemanticVersion, semver::Error>)
        ensures
            r is Ok <==> parsed_version(text@) is Some,
            r is Ok ==> r->Ok_0@ == parsed_version(text@)->Some_0,
    {
        semver_parse_version(text)
    }

    pub fn major(&self) -> (r: u64)
        ensures
            r == self@.major,
    {
        self.major
    }

    pub fn minor(&self) -> (r: u64)
        ensures
            r == self@.minor,
    {
        self.minor
    }

    pub fn patch(&self) -> (r: u64)
        ensures
            r == self@.patch,
    {
        self.patch
    }

    /// Whether the version carries a prerelease part.
    pub fn is_prerelease(&self) -> (r: bool)
        ensures
            r == is_prerelease_view(self@),
    {
        !self.pre.as_str().is_empty()
    }

    /// The order of two versions.
    pub fn compare(&self, other: &SemanticVersion) -> (r: Ordering)
        ensures
            r == version_order(self@, other@),
            r == Ordering::Greater <==> version_order(other@, self@) == Ordering::Less,
            forall|c: VersionView|
                r != Ordering::Greater && #[trigger] version_order(c, self@) != Ordering::Greater
                    ==> version_order(c, other@) != Ordering::Greater,
    {
        semver_cmp(self, other)
    }

    /// The version written out as `major.minor.patch[-pre][+build]`.
    pub fn to_text(&self) -> (r: String)
        ensures
            r@ == version_text(self@),
    {
        semver_to_string(self)
    }
}

impl VersionRequirement {
    /// Parses a requirement such as `^1.2`, `>=0.3, <0.5` or `1.*`.
    pub fn parse(text: &str) -> (r: Result<VersionRequirement, semver::Error>)
        ensures
            r is Ok <==> parsed_req(text@) is Some,
            r is Ok ==> r->Ok_0@ == parsed_req(text@)->Some_0,
    {
        semver_parse_req(text)
    }

    /// Whether the version meets the requirement.
    pub fn matches(&self, v: &SemanticVersion) -> (r: bool)
        ensures
            r == req_matches(self@, v@),
    {
        semver_matches(self, v)
    }

    pub fn comparators(&self) -> (r: &Vec<Comparator>)
        ensures
            r@.map_values(|c: Comparator| c@) == self@,
    {
        &self.comparators
    }
}

} // verus!
