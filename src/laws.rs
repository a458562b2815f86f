//! Properties that relate the spellings of a name and the outcomes of a
//! selection, stated over the contracts of the functions that produce them.
use crate::error::FetchError;
use crate::fuzzy::{
    all_variants, is_sep, is_variant, lemma_sep_count_step, sep_count, string_views, varied,
    MAX_VARIED,
};
use crate::rust_version::RustVersion;
use crate::select::{
    best_index, compatible_mask, dependency_of, latest_keeps, latest_mask, lemma_best_index,
    selected, CrateVersionView, Dependency,
};
use crate::version::{is_prerelease_view, ComparatorView};
use vstd::arithmetic::power2::pow2;
use vstd::prelude::*;

verus! {

/// Counting separators over a longer prefix never counts fewer.
proof fn lemma_sep_count_prefix(s: Seq<char>, q: int)
    requires
        0 <= q <= s.len(),
    ensures
        sep_count(s.take(q)) <= sep_count(s),
    decreases s.len() - q,
{
    if q < s.len() {
        lemma_sep_count_step(s, q);
        lemma_sep_count_prefix(s, q + 1);
    } else {
        assert(s.take(q) =~= s);
    }
}

/// A separator at position `p` is counted after those before it.
proof fn lemma_sep_counted(s: Seq<char>, p: int)
    requires
        0 <= p < s.len(),
        is_sep(s[p]),
    ensures
        sep_count(s.take(p)) + 1 <= sep_count(s),
{
    lemma_sep_count_step(s, p);
    lemma_sep_count_prefix(s, p + 1);
}

/// The requested name is always one of its own spellings.
pub proof fn law_requested_is_variant(s: Seq<char>)
    ensures
        is_variant(s, s),
{
}

/// A name without any `-` or `_` has exactly one spelling: itself.
pub proof fn law_no_separator_single(s: Seq<char>, names: Seq<String>)
    requires
        sep_count(s) == 0,
        all_variants(s, string_views(names)),
    ensures
        names.len() == 1,
        names[0]@ == s,
{
    let views = string_views(names);
    vstd::arithmetic::power2::lemma2_to64();
    assert(views.contains(views[0]));
    let t = views[0];
    assert forall|p: int| 0 <= p < s.len() implies t[p] == s[p] by {
        if is_sep(s[p]) {
            lemma_sep_counted(s, p);
        }
    }
    assert(t =~= s);
}

/// The character that a separator is flipped to.
pub open spec fn flip(c: char) -> char {
    if c == '-' {
        '_'
    } else {
        '-'
    }
}

/// For a name with at most ten separators there are `2^k` distinct
/// spellings for `k` separators; each differs from the name only in the
/// choice of separator at separator positions, and flipping any one
/// separator of a spelling gives another spelling.
pub proof fn law_separator_spellings(s: Seq<char>, names: Seq<String>)
    requires
        sep_count(s) <= MAX_VARIED,
        all_variants(s, string_views(names)),
    ensures
        names.len() == pow2(sep_count(s)),
        string_views(names).no_duplicates(),
        forall|i: int| 0 <= i < names.len() ==> (#[trigger] names[i])@.len() == s.len(),
        forall|i: int, p: int|
            0 <= i < names.len() && 0 <= p < s.len() && is_sep(s[p]) ==> is_sep(
                #[trigger] names[i]@[p],
            ),
        forall|i: int, p: int|
            0 <= i < names.len() && 0 <= p < s.len() && !is_sep(s[p]) ==> #[trigger] names[i]@[p]
                == s[p],
        forall|i: int, p: int|
            0 <= i < names.len() && 0 <= p < s.len() && is_sep(s[p]) ==> string_views(
                names,
            ).contains(#[trigger] names[i]@.update(p, flip(names[i]@[p]))),
{
    let views = string_views(names);
    assert forall|i: int| 0 <= i < names.len() implies views[i] == (#[trigger] names[i])@ by {}
    assert forall|p: int| 0 <= p < s.len() && is_sep(s[p]) implies varied(s, p) by {
        lemma_sep_counted(s, p);
    }
    assert forall|i: int| 0 <= i < names.len() implies is_variant(s, #[trigger] names[i]@) by {
        assert(views.contains(views[i]));
    }
    assert forall|i: int, p: int|
        0 <= i < names.len() && 0 <= p < s.len() && is_sep(s[p]) implies views.contains(
        #[trigger] names[i]@.update(p, flip(names[i]@[p])),
    ) by {
        let t = names[i]@.update(p, flip(names[i]@[p]));
        assert(is_variant(s, names[i]@));
        assert forall|q: int| 0 <= q < s.len() implies if varied(s, q) {
            is_sep(#[trigger] t[q])
        } else {
            t[q] == s[q]
        } by {
            if q != p {
                assert(t[q] == names[i]@[q]);
            }
        }
        assert(is_variant(s, t));
    }
}

/// Without prereleases allowed, the latest mode never chooses a prerelease,
/// nor a yanked version; and where a stable, unyanked version within the
/// ceiling exists, it succeeds.
pub proof fn law_latest_prefers_stable(
    vs: Seq<CrateVersionView>,
    ceiling: Option<RustVersion>,
    r: Result<Dependency, FetchError>,
)
    requires
        selected(vs, latest_mask(vs, false, ceiling), r),
    ensures
        r is Ok ==> exists|b: int|
            0 <= b < vs.len() && dependency_of(#[trigger] vs[b], r->Ok_0)
                && !is_prerelease_view(vs[b].version) && !vs[b].yanked,
        (exists|i: int| 0 <= i < vs.len() && latest_keeps(#[trigger] vs[i], false, ceiling))
            ==> r is Ok,
{
    let keep = latest_mask(vs, false, ceiling);
    lemma_best_index(vs, keep, vs.len() as int);
    if exists|i: int| 0 <= i < vs.len() && latest_keeps(#[trigger] vs[i], false, ceiling) {
        let i = choose|i: int| 0 <= i < vs.len() && latest_keeps(#[trigger] vs[i], false, ceiling);
        assert(keep[i]);
    }
    if r is Ok {
        let b = best_index(vs, keep, vs.len() as int)->Some_0;
        assert(keep[b]);
    }
}

/// The latest mode never chooses a yanked version, whatever the prerelease
/// flag, even where a yanked version is greater than all others.
pub proof fn law_latest_skips_yanked(
    vs: Seq<CrateVersionView>,
    allow_prerelease: bool,
    ceiling: Option<RustVersion>,
    r: Result<Dependency, FetchError>,
)
    requires
        selected(vs, latest_mask(vs, allow_prerelease, ceiling), r),
    ensures
        r is Ok ==> exists|b: int|
            0 <= b < vs.len() && dependency_of(#[trigger] vs[b], r->Ok_0) && !vs[b].yanked,
{
    let keep = latest_mask(vs, allow_prerelease, ceiling);
    lemma_best_index(vs, keep, vs.len() as int);
    if r is Ok {
        let b = best_index(vs, keep, vs.len() as int)->Some_0;
        assert(keep[b]);
    }
}

/// Where every version is yanked, both modes fail with `NoAvailableVersion`.
pub proof fn law_all_yanked_fails(
    vs: Seq<CrateVersionView>,
    allow_prerelease: bool,
    req: Seq<ComparatorView>,
    ceiling: Option<RustVersion>,
    latest: Result<Dependency, FetchError>,
    compatible: Result<Dependency, FetchError>,
)
    requires
        forall|i: int| 0 <= i < vs.len() ==> (#[trigger] vs[i]).yanked,
        selected(vs, latest_mask(vs, allow_prerelease, ceiling), latest),
        selected(vs, compatible_mask(vs, req, ceiling), compatible),
    ensures
        latest == Err::<Dependency, FetchError>(FetchError::NoAvailableVersion),
        compatible == Err::<Dependency, FetchError>(FetchError::NoAvailableVersion),
{
    lemma_best_index(vs, latest_mask(vs, allow_prerelease, ceiling), vs.len() as int);
    lemma_best_index(vs, compatible_mask(vs, req, ceiling), vs.len() as int);
}

} // verus!
