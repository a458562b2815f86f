//! Selection of one version among the records of a crate: yanked versions
//! and versions above the toolchain ceiling are dropped, then the greatest
//! of those that the mode admits is taken.
use crate::error::FetchError;
use crate::rust_version::{rust_version_le, RustVersion};
use crate::version::{
    is_prerelease_view, req_matches, version_order, version_text, ComparatorView, SemanticVersion,
    VersionRequirement, VersionView,
};
use std::cmp::Ordering;
use vstd::prelude::*;

verus! {

/// One published version of a crate, as the selection reads it.
pub struct CrateVersion {
    pub name: String,
    pub version: SemanticVersion,
    pub rust_version: Option<RustVersion>,
    pub yanked: bool,
}

pub struct CrateVersionView {
    pub name: Seq<char>,
    pub version: VersionView,
    pub rust_version: Option<RustVersion>,
    pub yanked: bool,
}

impl View for CrateVersion {
    type V = CrateVersionView;

    open spec fn view(&self) -> CrateVersionView {
        CrateVersionView {
            name: self.name@,
            version: self.version@,
            rust_version: self.rust_version,
            yanked: self.yanked,
        }
    }
}

/// One published version of a crate as the registry index hands it over.
pub struct IndexVersion {
    pub name: String,
    pub version: String,
    pub rust_version: Option<String>,
    pub yanked: bool,
}

pub struct IndexVersionView {
    pub name: Seq<char>,
    pub version: Seq<char>,
    pub rust_version: Option<Seq<char>>,
    pub yanked: bool,
}

impl View for IndexVersion {
    type V = IndexVersionView;

    open spec fn view(&self) -> IndexVersionView {
        IndexVersionView {
            name: self.name@,
            version: self.version@,
            rust_version: match self.rust_version {
                Some(r) => Some(r@),
                None => None,
            },
            yanked: self.yanked,
        }
    }
}

/// The resolved dependency: a crate name and the text of its version.
pub struct Dependency {
    pub name: String,
    pub version: String,
}

impl Dependency {
    /// The version text of the dependency.
    pub fn version(&self) -> (r: Option<String>)
        ensures
            r is Some && r->Some_0@ == self.version@,
    {
        Some(self.version.clone())
    }
}

impl CrateVersion {
    pub fn new(
        name: String,
        version: SemanticVersion,
        rust_version: Option<RustVersion>,
        yanked: bool,
    ) -> (r: CrateVersion)
        ensures
            r@ == (CrateVersionView {
                name: name@,
                version: version@,
                rust_version,
                yanked,
            }),
    {
        CrateVersion { name, version, rust_version, yanked }
    }
}

pub open spec fn crate_views(vs: Seq<CrateVersion>) -> Seq<CrateVersionView> {
    vs.map_values(|v: CrateVersion| v@)
}

pub open spec fn index_views(vs: Seq<IndexVersion>) -> Seq<IndexVersionView> {
    vs.map_values(|v: IndexVersion| v@)
}

/// A version passes the ceiling when no ceiling is set, when it declares no
/// minimum toolchain, or when its minimum is no later than the ceiling.
pub open spec fn within_toolchain(v: CrateVersionView, ceiling: Option<RustVersion>) -> bool {
    match (ceiling, v.rust_version) {
        (Some(c), Some(m)) => rust_version_le(m, c),
        _ => true,
    }
}

/// A candidate of the latest mode.
pub open spec fn latest_keeps(
    v: CrateVersionView,
    allow_prerelease: bool,
    ceiling: Option<RustVersion>,
) -> bool {
    &&& allow_prerelease || !is_prerelease_view(v.version)
    &&& !v.yanked
    &&& within_toolchain(v, ceiling)
}

/// A candidate of the compatible mode.
pub open spec fn compatible_keeps(
    v: CrateVersionView,
    req: Seq<ComparatorView>,
    ceiling: Option<RustVersion>,
) -> bool {
    &&& req_matches(req, v.version)
    &&& !v.yanked
    &&& within_toolchain(v, ceiling)
}

pub open spec fn latest_mask(
    vs: Seq<CrateVersionView>,
    allow_prerelease: bool,
    ceiling: Option<RustVersion>,
) -> Seq<bool> {
    Seq::new(vs.len(), |i: int| latest_keeps(vs[i], allow_prerelease, ceiling))
}

pub open spec fn compatible_mask(
    vs: Seq<CrateVersionView>,
    req: Seq<ComparatorView>,
    ceiling: Option<RustVersion>,
) -> Seq<bool> {
    Seq::new(vs.len(), |i: int| compatible_keeps(vs[i], req, ceiling))
}

/// The greatest kept version among the first `n`, in the version order; of
/// equal ones the last. `None` when none of them is kept.
pub open spec fn best_index(vs: Seq<CrateVersionView>, keep: Seq<bool>, n: int) -> Option<int>
    decreases n,
{
    if n <= 0 {
        None
    } else {
        let prev = best_index(vs, keep, n - 1);
        if !keep[n - 1] {
            prev
        } else {
            match prev {
                None => Some(n - 1),
                Some(b) => if version_order(vs[b].version, vs[n - 1].version)
                    == Ordering::Greater {
                    Some(b)
                } else {
                    Some(n - 1)
                },
            }
        }
    }
}

/// The dependency made of one record: its name and its version's text.
pub open spec fn dependency_of(v: CrateVersionView, d: Dependency) -> bool {
    d.name@ == v.name && d.version@ == version_text(v.version)
}

/// The outcome of a selection: the dependency of the chosen record, or
/// `NoAvailableVersion` when no record is kept.
pub open spec fn selected(
    vs: Seq<CrateVersionView>,
    keep: Seq<bool>,
    r: Result<Dependency, FetchError>,
) -> bool {
    match best_index(vs, keep, vs.len() as int) {
        None => r == Err::<Dependency, FetchError>(FetchError::NoAvailableVersion),
        Some(b) => r is Ok && dependency_of(vs[b], r->Ok_0),
    }
}

/// The record at `b` is no less than any other kept record.
pub open spec fn greatest_kept(vs: Seq<CrateVersionView>, keep: Seq<bool>, b: int) -> bool {
    forall|j: int|
        0 <= j < vs.len() && keep[j] && j != b ==> version_order(
            #[trigger] vs[j].version,
            vs[b].version,
        ) != Ordering::Greater
}

/// The chosen record is the greatest kept one.
pub open spec fn selected_greatest(vs: Seq<CrateVersionView>, keep: Seq<bool>) -> bool {
    match best_index(vs, keep, vs.len() as int) {
        None => true,
        Some(b) => greatest_kept(vs, keep, b),
    }
}

/// A best index exists exactly when some record is kept; it is a kept one.
pub proof fn lemma_best_index(vs: Seq<CrateVersionView>, keep: Seq<bool>, n: int)
    requires
        0 <= n <= vs.len(),
        keep.len() == vs.len(),
    ensures
        best_index(vs, keep, n) is Some <==> exists|i: int| 0 <= i < n && keep[i],
        best_index(vs, keep, n) is Some ==> {
            let b = best_index(vs, keep, n)->Some_0;
            0 <= b < n && keep[b]
        },
    decreases n,
{
    if n > 0 {
        lemma_best_index(vs, keep, n - 1);
        if best_index(vs, keep, n) is None {
            assert forall|i: int| 0 <= i < n implies !keep[i] by {
                if i < n - 1 {
                } else {
                }
            }
        }
    }
}

/// Whether a record is a stable release.
fn version_is_stable(version: &CrateVersion) -> (r: bool)
    ensures
        r == !is_prerelease_view(version@.version),
{
    !version.version.is_prerelease()
}

fn within_ceiling(v: &CrateVersion, ceiling: Option<RustVersion>) -> (r: bool)
    ensures
        r == within_toolchain(v@, ceiling),
{
    match (ceiling, v.rust_version) {
        (Some(c), Some(m)) => m.le(&c),
        _ => true,
    }
}

/// The greatest kept record, projected to a dependency.
fn select_best(versions: &Vec<CrateVersion>, keep: &Vec<bool>) -> (r: Result<
    Dependency,
    FetchError,
>)
    requires
        keep@.len() == versions@.len(),
    ensures
        selected(crate_views(versions@), keep@, r),
        selected_greatest(crate_views(versions@), keep@),
{
    let ghost vs = crate_views(versions@);
    let mut best: Option<usize> = None;
    let mut i: usize = 0;
    while i < versions.len()
        invariant
            vs == crate_views(versions@),
            keep@.len() == versions@.len(),
            i <= versions@.len(),
            best_index(vs, keep@, i as int) == match best {
                Some(b) => Some(b as int),
                None => None::<int>,
            },
            best is Some ==> best->Some_0 < i,
            best is Some ==> forall|j: int|
                0 <= j < i && keep@[j] && j != best->Some_0 ==> version_order(
                    #[trigger] vs[j].version,
                    vs[best->Some_0 as int].version,
                ) != Ordering::Greater,
        decreases versions@.len() - i,
    {
        proof {
            lemma_best_index(vs, keep@, i as int);
        }
        if keep[i] {
            match best {
                None => {
                    best = Some(i);
                },
                Some(b) => {
                    let ord = versions[b].version.compare(&versions[i].version);
                    assert(vs[b as int].version == versions@[b as int].version@);
                    assert(vs[i as int].version == versions@[i as int].version@);
                    match ord {
                        Ordering::Greater => {},
                        _ => {
                            best = Some(i);
                            assert forall|j: int|
                                0 <= j < i + 1 && keep@[j] && j != i implies version_order(
                                #[trigger] vs[j].version,
                                vs[i as int].version,
                            ) != Ordering::Greater by {
                                if j != b {
                                    assert(version_order(vs[j].version, vs[b as int].version)
                                        != Ordering::Greater);
                                }
                            }
                        },
                    }
                },
            }
        }
        i = i + 1;
    }
    match best {
        None => Err(FetchError::NoAvailableVersion),
        Some(b) => {
            let latest = &versions[b];
            Ok(Dependency { name: latest.name.clone(), version: latest.version.to_text() })
        },
    }
}

/// Reads the latest version: of the records that are not yanked, not above
/// the toolchain ceiling and, unless prereleases are allowed, not
/// prereleases, the greatest one.
pub fn read_latest_version(
    versions: &Vec<CrateVersion>,
    flag_allow_prerelease: bool,
    rust_version: Option<RustVersion>,
) -> (r: Result<Dependency, FetchError>)
    ensures
        selected(
            crate_views(versions@),
            latest_mask(crate_views(versions@), flag_allow_prerelease, rust_version),
            r,
        ),
        selected_greatest(
            crate_views(versions@),
            latest_mask(crate_views(versions@), flag_allow_prerelease, rust_version),
        ),
{
    let ghost vs = crate_views(versions@);
    let mut keep: Vec<bool> = Vec::new();
    let mut i: usize = 0;
    while i < versions.len()
        invariant
            vs == crate_views(versions@),
            i <= versions@.len(),
            keep@ == latest_mask(vs, flag_allow_prerelease, rust_version).take(i as int),
        decreases versions@.len() - i,
    {
        let v = &versions[i];
        let k = (flag_allow_prerelease || version_is_stable(v)) && !v.yanked && within_ceiling(
            v,
            rust_version,
        );
        keep.push(k);
        i = i + 1;
        assert(keep@ =~= latest_mask(vs, flag_allow_prerelease, rust_version).take(i as int));
    }
    assert(keep@ =~= latest_mask(vs, flag_allow_prerelease, rust_version));
    select_best(versions, &keep)
}

/// Reads the greatest version that meets the requirement, among the records
/// that are not yanked and not above the toolchain ceiling.
pub fn read_compatible_version(
    versions: &Vec<CrateVersion>,
    version_req: &VersionRequirement,
    rust_version: Option<RustVersion>,
) -> (r: Result<Dependency, FetchError>)
    ensures
        selected(
            crate_views(versions@),
            compatible_mask(crate_views(versions@), version_req@, rust_version),
            r,
        ),
        selected_greatest(
            crate_views(versions@),
            compatible_mask(crate_views(versions@), version_req@, rust_version),
        ),
{
    let ghost vs = crate_views(versions@);
    let mut keep: Vec<bool> = Vec::new();
    let mut i: usize = 0;
    while i < versions.len()
        invariant
            vs == crate_views(versions@),
            i <= versions@.len(),
            keep@ == compatible_mask(vs, version_req@, rust_version).take(i as int),
        decreases versions@.len() - i,
    {
        let v = &versions[i];
        let k = version_req.matches(&v.version) && !v.yanked && within_ceiling(v, rust_version);
        keep.push(k);
        i = i + 1;
        assert(keep@ =~= compatible_mask(vs, version_req@, rust_version).take(i as int));
    }
    assert(keep@ =~= compatible_mask(vs, version_req@, rust_version));
    select_best(versions, &keep)
}

} // verus!
