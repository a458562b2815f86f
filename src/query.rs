//! Finding a crate in the registry index under one of its spellings: the
//! decisions of the lookup sequence, from the requested name and the outcome
//! of each lookup to the next lookup or the end.
use crate::error::FetchError;
use crate::fuzzy::{all_variants, gen_fuzzy_crate_names, same_text, string_views};
use crate::rust_version::{parse_toolchain_spec, RustVersion};
use crate::select::{
    crate_views, index_views, CrateVersion, CrateVersionView, Dependency, IndexVersion,
    IndexVersionView,
};
use crate::version::{parsed_version, SemanticVersion};
use vstd::prelude::*;

verus! {

/// What a record of the index becomes, or the error that it gives.
pub open spec fn parse_record(r: IndexVersionView) -> Result<CrateVersionView, FetchError> {
    match parsed_version(r.version) {
        None => Err(FetchError::InvalidVersion),
        Some(v) => match r.rust_version {
            None => Ok(CrateVersionView { name: r.name, version: v, rust_version: None, yanked: r.yanked }),
            Some(t) => match parse_toolchain_spec(t) {
                Err(e) => Err(e),
                Ok(m) => Ok(
                    CrateVersionView { name: r.name, version: v, rust_version: Some(m), yanked: r.yanked },
                ),
            },
        },
    }
}

/// The records of the index, each parsed; the first error stops it.
pub open spec fn parse_records(rs: Seq<IndexVersionView>) -> Result<Seq<CrateVersionView>, FetchError>
    decreases rs.len(),
{
    if rs.len() == 0 {
        Ok(Seq::empty())
    } else {
        match parse_records(rs.drop_last()) {
            Err(e) => Err(e),
            Ok(prev) => match parse_record(rs.last()) {
                Err(e) => Err(e),
                Ok(c) => Ok(prev.push(c)),
            },
        }
    }
}

fn parse_index_version(raw: &IndexVersion) -> (r: Result<CrateVersion, FetchError>)
    ensures
        match parse_record(raw@) {
            Ok(c) => r is Ok && r->Ok_0@ == c,
            Err(e) => r == Err::<CrateVersion, FetchError>(e),
        },
{
    let version = match SemanticVersion::parse(raw.version.as_str()) {
        Ok(v) => v,
        Err(_) => {
            return Err(FetchError::InvalidVersion);
        },
    };
    let rust_version = match &raw.rust_version {
        None => None,
        Some(t) => match RustVersion::parse(t.as_str()) {
            Ok(m) => Some(m),
            Err(e) => {
                return Err(e);
            },
        },
    };
    Ok(CrateVersion::new(raw.name.clone(), version, rust_version, raw.yanked))
}

/// Parses the records that the index gave for one crate.
pub fn parse_index_versions(raw: &Vec<IndexVersion>) -> (r: Result<Vec<CrateVersion>, FetchError>)
    ensures
        match parse_records(index_views(raw@)) {
            Ok(vs) => r is Ok && crate_views(r->Ok_0@) == vs,
            Err(e) => r == Err::<Vec<CrateVersion>, FetchError>(e),
        },
{
    let ghost rs = index_views(raw@);
    let mut out: Vec<CrateVersion> = Vec::new();
    let mut i: usize = 0;
    proof {
        assert(rs.take(0) =~= Seq::<IndexVersionView>::empty());
        assert(crate_views(out@) =~= Seq::<CrateVersionView>::empty());
    }
    while i < raw.len()
        invariant
            rs == index_views(raw@),
            i <= raw@.len(),
            parse_records(rs.take(i as int)) == Ok::<Seq<CrateVersionView>, FetchError>(
                crate_views(out@),
            ),
        decreases raw@.len() - i,
    {
        proof {
            assert(rs.take(i + 1).drop_last() =~= rs.take(i as int));
            assert(rs.take(i + 1).last() == raw@[i as int]@);
        }
        match parse_index_version(&raw[i]) {
            Ok(c) => {
                let ghost prev = crate_views(out@);
                let ghost cv = c@;
                out.push(c);
                assert(crate_views(out@) =~= prev.push(cv));
            },
            Err(e) => {
                proof {
                    let n = raw@.len() as int;
                    lemma_parse_records_err(rs, i as int + 1, n);
                }
                return Err(e);
            },
        }
        i = i + 1;
    }
    assert(rs.take(raw@.len() as int) =~= rs);
    Ok(out)
}

/// An error among the first `i` records is the error of all of them.
proof fn lemma_parse_records_err(rs: Seq<IndexVersionView>, i: int, n: int)
    requires
        0 <= i <= n == rs.len(),
        parse_records(rs.take(i)) is Err,
    ensures
        parse_records(rs) == parse_records(rs.take(i)),
    decreases n - i,
{
    if i < n {
        assert(rs.take(i + 1).drop_last() =~= rs.take(i));
        lemma_parse_records_err(rs, i + 1, n);
    } else {
        assert(rs.take(i) =~= rs);
    }
}

/// The notice that the resolved crate is published under another spelling
/// than the requested one: `None` where the names agree.
pub fn substitution_warning(requested: &String, dep: &Dependency) -> (r: Option<String>)
    ensures
        r is None <==> dep.name@ == requested@,
        r is Some ==> r->Some_0@ == "Added `"@ + dep.name@ + "` instead of `"@ + requested@ + "`"@,
{
    if same_text(&dep.name, requested) {
        None
    } else {
        Some(
            String::from_str("Added `").concat(dep.name.as_str()).concat("` instead of `").concat(
                requested.as_str(),
            ).concat("`"),
        )
    }
}

/// The plain state of a lookup sequence.
pub struct FuzzyQueryView {
    pub requested: Seq<char>,
    pub names: Seq<Seq<char>>,
    pub tried: nat,
}

/// A lookup sequence over the spellings of one requested name. Each
/// spelling is handed out in turn; the first one that the index knows wins.
pub struct FuzzyQuery {
    crate_name: String,
    names: Vec<String>,
    tried: usize,
}

/// What the caller does next.
pub enum QueryAction {
    /// Look this name up in the index and report the outcome to `step`.
    Lookup(String),
    /// The index knows the crate: these are its versions.
    Resolved(Vec<CrateVersion>),
    /// The sequence ended in this error.
    Failed(FetchError),
}

impl View for FuzzyQuery {
    type V = FuzzyQueryView;

    closed spec fn view(&self) -> FuzzyQueryView {
        FuzzyQueryView {
            requested: self.crate_name@,
            names: string_views(self.names@),
            tried: self.tried as nat,
        }
    }
}

impl FuzzyQuery {
    /// The sequence is over the spellings of the requested name, that name
    /// first, and at least one spelling has been handed out.
    pub closed spec fn wf(&self) -> bool {
        &&& all_variants(self.crate_name@, string_views(self.names@))
        &&& self.names@.len() > 0
        &&& self.names@[0]@ == self.crate_name@
        &&& 1 <= self.tried <= self.names@.len()
    }

    /// Starts a lookup sequence for a requested name: the sequence and the
    /// first name to look up, which is the requested one. An empty name is
    /// refused.
    pub fn start(crate_name: &str) -> (r: Result<(FuzzyQuery, String), FetchError>)
        ensures
            crate_name@.len() == 0 <==> r == Err::<(FuzzyQuery, String), FetchError>(
                FetchError::EmptyCrateName,
            ),
            crate_name@.len() > 0 <==> r is Ok,
            r is Ok ==> {
                let (q, first) = r->Ok_0;
                &&& q.wf()
                &&& q@.requested == crate_name@
                &&& q@.tried == 1
                &&& first@ == crate_name@
            },
    {
        if crate_name.is_empty() {
            return Err(FetchError::EmptyCrateName);
        }
        let name = String::from_str(crate_name);
        let names = match gen_fuzzy_crate_names(name.clone()) {
            Ok(names) => names,
            Err(e) => {
                return Err(e);
            },
        };
        let first = names[0].clone();
        Ok((FuzzyQuery { crate_name: name, names, tried: 1 }, first))
    }

    /// Takes the outcome of the last lookup: the records of the crate, or
    /// `None` where the index did not know the name or the lookup failed.
    /// Records end the sequence; otherwise the next spelling is handed out,
    /// and when none is left the sequence fails with `CrateNotFound`.
    pub fn step(&mut self, found: Option<Vec<IndexVersion>>) -> (r: QueryAction)
        requires
            old(self).wf(),
        ensures
            final(self).wf(),
            final(self)@.requested == old(self)@.requested,
            final(self)@.names == old(self)@.names,
            match found {
                Some(raw) => final(self)@.tried == old(self)@.tried && match parse_records(
                    index_views(raw@),
                ) {
                    Ok(vs) => r is Resolved && crate_views(r->Resolved_0@) == vs,
                    Err(e) => r == QueryAction::Failed(e),
                },
                None => if old(self)@.tried < old(self)@.names.len() {
                    &&& final(self)@.tried == old(self)@.tried + 1
                    &&& r is Lookup
                    &&& r->Lookup_0@ == old(self)@.names[old(self)@.tried as int]
                } else {
                    &&& final(self)@.tried == old(self)@.tried
                    &&& r is Failed
                    &&& r->Failed_0 is CrateNotFound
                    &&& r->Failed_0->CrateNotFound_0@ == old(self)@.requested
                },
            },
    {
        match found {
            Some(raw) => match parse_index_versions(&raw) {
                Ok(vs) => QueryAction::Resolved(vs),
                Err(e) => QueryAction::Failed(e),
            },
            None => {
                if self.tried < self.names.len() {
                    let name = self.names[self.tried].clone();
                    self.tried = self.tried + 1;
                    QueryAction::Lookup(name)
                } else {
                    QueryAction::Failed(FetchError::CrateNotFound(self.crate_name.clone()))
                }
            },
        }
    }
}

} // verus!
