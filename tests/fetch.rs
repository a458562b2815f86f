use cargo_fetch::error::FetchError;
use cargo_fetch::fuzzy::gen_fuzzy_crate_names;
use cargo_fetch::query::{parse_index_versions, substitution_warning, FuzzyQuery, QueryAction};
use cargo_fetch::rust_version::RustVersion;
use cargo_fetch::select::{
    read_compatible_version, read_latest_version, CrateVersion, Dependency, IndexVersion,
};
use cargo_fetch::version::{ReqOp, SemanticVersion, VersionRequirement};
use std::cmp::Ordering;

fn record(name: &str, version: &str, rust_version: Option<RustVersion>, yanked: bool) -> CrateVersion {
    CrateVersion {
        name: name.into(),
        version: SemanticVersion::parse(version).unwrap(),
        rust_version,
        yanked,
    }
}

fn index_record(name: &str, version: &str, rust_version: Option<&str>, yanked: bool) -> IndexVersion {
    IndexVersion {
        name: name.into(),
        version: version.into(),
        rust_version: rust_version.map(|r| r.to_string()),
        yanked,
    }
}

fn sorted_names(input: &str) -> Vec<String> {
    let mut actual = gen_fuzzy_crate_names(input.to_string()).unwrap();
    actual.sort();
    actual
}

#[test]
fn test_gen_fuzzy_crate_names() {
    fn test_helper(input: &str, expect: &[&str]) {
        let mut actual = gen_fuzzy_crate_names(input.to_string()).unwrap();
        actual.sort();

        let mut expect = expect.iter().map(|x| x.to_string()).collect::<Vec<_>>();
        expect.sort();

        assert_eq!(actual, expect);
    }

    test_helper("", &[""]);
    test_helper("-", &["_", "-"]);
    test_helper("DCjanus", &["DCjanus"]);
    test_helper("DC-janus", &["DC-janus", "DC_janus"]);
    test_helper(
        "DC-_janus",
        &["DC__janus", "DC_-janus", "DC-_janus", "DC--janus"],
    );
}

#[test]
fn get_latest_stable_version() {
    let versions = vec![
        record("foo", "0.6.0-alpha", None, false),
        record("foo", "0.5.0", None, false),
    ];
    assert_eq!(
        read_latest_version(&versions, false, None)
            .unwrap()
            .version()
            .unwrap(),
        "0.5.0"
    );
}

#[test]
fn get_latest_unstable_or_stable_version() {
    let versions = vec![
        record("foo", "0.6.0-alpha", None, false),
        record("foo", "0.5.0", None, false),
    ];
    assert_eq!(
        read_latest_version(&versions, true, None)
            .unwrap()
            .version()
            .unwrap(),
        "0.6.0-alpha"
    );
}

#[test]
fn get_latest_version_with_yanked() {
    let versions = vec![
        record("treexml", "0.3.1", None, true),
        record("true", "0.3.0", None, false),
    ];
    assert_eq!(
        read_latest_version(&versions, false, None)
            .unwrap()
            .version()
            .unwrap(),
        "0.3.0"
    );
}

#[test]
fn get_no_latest_version_from_json_when_all_are_yanked() {
    let versions = vec![
        record("treexml", "0.3.1", None, true),
        record("true", "0.3.0", None, true),
    ];
    assert!(read_latest_version(&versions, false, None).is_err());
}

#[test]
fn yanked_skipped_with_prereleases_allowed() {
    let versions = vec![
        record("treexml", "0.3.1", None, true),
        record("treexml", "0.3.0", None, false),
    ];
    let dep = read_latest_version(&versions, true, None).unwrap();
    assert_eq!(dep.version, "0.3.0");
    assert_eq!(dep.name, "treexml");
}

#[test]
fn all_yanked_fails_in_both_modes() {
    let versions = vec![
        record("foo", "1.0.0", None, true),
        record("foo", "1.1.0", None, true),
    ];
    assert!(matches!(
        read_latest_version(&versions, true, None),
        Err(FetchError::NoAvailableVersion)
    ));
    let req = VersionRequirement::parse("^1").unwrap();
    assert!(matches!(
        read_compatible_version(&versions, &req, None),
        Err(FetchError::NoAvailableVersion)
    ));
}

#[test]
fn empty_list_has_no_available_version() {
    let versions: Vec<CrateVersion> = vec![];
    assert!(matches!(
        read_latest_version(&versions, false, None),
        Err(FetchError::NoAvailableVersion)
    ));
}

#[test]
fn only_prereleases_without_flag_fails() {
    let versions = vec![record("foo", "1.0.0-rc.1", None, false)];
    assert!(matches!(
        read_latest_version(&versions, false, None),
        Err(FetchError::NoAvailableVersion)
    ));
}

#[test]
fn latest_is_greatest_not_last() {
    let versions = vec![
        record("foo", "0.10.0", None, false),
        record("foo", "0.9.0", None, false),
        record("foo", "0.2.0", None, false),
    ];
    let dep = read_latest_version(&versions, false, None).unwrap();
    assert_eq!(dep.version, "0.10.0");
}

#[test]
fn toolchain_ceiling_filters_versions() {
    let ceiling = RustVersion { major: 1, minor: 60, patch: 0 };
    let versions = vec![
        record("foo", "1.0.0", None, false),
        record("foo", "1.1.0", Some(RustVersion { major: 1, minor: 56, patch: 0 }), false),
        record("foo", "1.2.0", Some(RustVersion { major: 1, minor: 70, patch: 0 }), false),
    ];
    let dep = read_latest_version(&versions, false, Some(ceiling)).unwrap();
    assert_eq!(dep.version, "1.1.0");
    let dep = read_latest_version(&versions, false, None).unwrap();
    assert_eq!(dep.version, "1.2.0");
    let exact = RustVersion { major: 1, minor: 70, patch: 0 };
    let dep = read_latest_version(&versions, false, Some(exact)).unwrap();
    assert_eq!(dep.version, "1.2.0");
}

#[test]
fn compatible_version_meets_requirement() {
    let versions = vec![
        record("foo", "0.4.3", None, false),
        record("foo", "0.5.1", None, false),
        record("foo", "0.5.2", None, true),
        record("foo", "0.6.0", None, false),
    ];
    let req = VersionRequirement::parse("^0.5").unwrap();
    let dep = read_compatible_version(&versions, &req, None).unwrap();
    assert_eq!(dep.version, "0.5.1");
    let req = VersionRequirement::parse(">=0.4, <0.5").unwrap();
    let dep = read_compatible_version(&versions, &req, None).unwrap();
    assert_eq!(dep.version, "0.4.3");
    let req = VersionRequirement::parse("^2").unwrap();
    assert!(matches!(
        read_compatible_version(&versions, &req, None),
        Err(FetchError::NoAvailableVersion)
    ));
}

#[test]
fn toolchain_parsing() {
    let v = RustVersion::parse("1.32").unwrap();
    assert_eq!(v, RustVersion { major: 1, minor: 32, patch: 0 });
    let v = RustVersion::parse("1.32.4").unwrap();
    assert_eq!(v, RustVersion { major: 1, minor: 32, patch: 4 });
    let v = RustVersion::parse("2").unwrap();
    assert_eq!(v, RustVersion { major: 2, minor: 0, patch: 0 });
    assert!(matches!(RustVersion::parse("1.32.0-beta"), Err(FetchError::InvalidToolchainSpec)));
    assert!(matches!(RustVersion::parse(">=1.32"), Err(FetchError::InvalidToolchainSpec)));
    assert!(matches!(RustVersion::parse("1.*"), Err(FetchError::InvalidToolchainSpec)));
    assert!(matches!(RustVersion::parse("^1.2, <2"), Err(FetchError::InvalidToolchainSpec)));
    assert!(matches!(RustVersion::parse("one"), Err(FetchError::InvalidToolchainSpec)));
}

#[test]
fn toolchain_order_and_bounds() {
    let min = RustVersion::min_value();
    let max = RustVersion::max_value();
    assert_eq!(min, RustVersion { major: 1, minor: 0, patch: 0 });
    assert_eq!(max.patch, u64::MAX);
    assert!(min.le(&max));
    assert!(!max.le(&min));
    let a = RustVersion { major: 1, minor: 32, patch: 0 };
    let b = RustVersion { major: 1, minor: 4, patch: 9 };
    assert!(b.le(&a));
    assert!(!a.le(&b));
    assert!(a.le(&a));
}

#[test]
fn toolchain_from_requirement_and_version() {
    let req = VersionRequirement::parse("1.40").unwrap();
    assert_eq!(
        RustVersion::from_version_req(&req),
        RustVersion { major: 1, minor: 40, patch: 0 }
    );
    let v = SemanticVersion::parse("1.65.2-nightly").unwrap();
    assert_eq!(RustVersion::from_version(&v), RustVersion { major: 1, minor: 65, patch: 2 });
}

#[test]
fn parking_lot_core_spellings() {
    let mut expect = vec![
        "parking_lot_core".to_string(),
        "parking-lot_core".to_string(),
        "parking_lot-core".to_string(),
        "parking-lot-core".to_string(),
    ];
    expect.sort();
    assert_eq!(sorted_names("parking_lot_core"), expect);
    let names = gen_fuzzy_crate_names("parking_lot_core".to_string()).unwrap();
    assert_eq!(names[0], "parking_lot_core");
}

#[test]
fn no_separator_gives_the_name_alone() {
    assert_eq!(gen_fuzzy_crate_names("serde".to_string()).unwrap(), vec!["serde".to_string()]);
}

#[test]
fn requested_spelling_comes_first() {
    for name in ["parking_lot_core", "cargo-edit", "a-b_c-d", "plain"] {
        let names = gen_fuzzy_crate_names(name.to_string()).unwrap();
        assert_eq!(names[0], name);
    }
    let names = gen_fuzzy_crate_names("a-b_c".to_string()).unwrap();
    assert_eq!(names.len(), 4);
    let mut sorted = names.clone();
    sorted.sort();
    sorted.dedup();
    assert_eq!(sorted.len(), 4);
}

#[test]
fn spellings_are_closed_under_flipping() {
    let names = sorted_names("x-y_z");
    assert_eq!(names.len(), 4);
    for n in &names {
        for p in [1usize, 3] {
            let mut bytes = n.clone().into_bytes();
            bytes[p] = if bytes[p] == b'-' { b'_' } else { b'-' };
            let flipped = String::from_utf8(bytes).unwrap();
            assert!(names.contains(&flipped));
        }
    }
}

#[test]
fn only_first_ten_separators_vary() {
    let name = "a-b-c-d-e-f-g-h-i-j-k-l";
    let names = gen_fuzzy_crate_names(name.to_string()).unwrap();
    assert_eq!(names.len(), 1024);
    for n in &names {
        assert!(n.ends_with("k-l"));
        assert_eq!(n.len(), name.len());
    }
    let mut sorted = names.clone();
    sorted.sort();
    sorted.dedup();
    assert_eq!(sorted.len(), 1024);
    assert!(names.contains(&"a_b_c_d_e_f_g_h_i_j_k-l".to_string()));
}

#[test]
fn semver_parts_and_text() {
    let v = SemanticVersion::parse("1.2.3-beta.1+build5").unwrap();
    assert_eq!((v.major(), v.minor(), v.patch()), (1, 2, 3));
    assert!(v.is_prerelease());
    assert_eq!(v.to_text(), "1.2.3-beta.1+build5");
    let w = SemanticVersion::parse("1.2.3").unwrap();
    assert!(!w.is_prerelease());
    assert_eq!(w.to_text(), "1.2.3");
    assert_eq!(v.compare(&w), Ordering::Less);
    assert_eq!(w.compare(&v), Ordering::Greater);
    assert!(SemanticVersion::parse("1.2").is_err());
}

#[test]
fn requirement_comparators_and_matching() {
    let req = VersionRequirement::parse(">=1.2, <2").unwrap();
    let cs = req.comparators();
    assert_eq!(cs.len(), 2);
    assert_eq!(cs[0].op, ReqOp::GreaterEq);
    assert_eq!(cs[0].major, 1);
    assert_eq!(cs[0].minor, Some(2));
    assert_eq!(cs[1].op, ReqOp::Less);
    assert!(req.matches(&SemanticVersion::parse("1.9.0").unwrap()));
    assert!(!req.matches(&SemanticVersion::parse("2.0.0").unwrap()));
    assert!(VersionRequirement::parse("@1").is_err());
}

#[test]
fn index_records_parse() {
    let raw = vec![
        index_record("foo", "0.1.0", None, false),
        index_record("foo", "0.2.0", Some("1.56"), true),
    ];
    let vs = parse_index_versions(&raw).unwrap();
    assert_eq!(vs.len(), 2);
    assert_eq!(vs[1].rust_version, Some(RustVersion { major: 1, minor: 56, patch: 0 }));
    assert!(vs[1].yanked);
    assert_eq!(vs[0].version.to_text(), "0.1.0");

    let bad = vec![index_record("foo", "zero", None, false)];
    assert!(matches!(parse_index_versions(&bad), Err(FetchError::InvalidVersion)));
    let bad = vec![index_record("foo", "0.1.0", Some(">=1.5"), false)];
    assert!(matches!(parse_index_versions(&bad), Err(FetchError::InvalidToolchainSpec)));
}

#[test]
fn lookup_sequence_first_hit_wins() {
    assert!(matches!(FuzzyQuery::start(""), Err(FetchError::EmptyCrateName)));
    let (mut q, first) = FuzzyQuery::start("foo-bar").unwrap();
    assert_eq!(first, "foo-bar");
    let next = match q.step(None) {
        QueryAction::Lookup(n) => n,
        _ => panic!("expected a lookup"),
    };
    assert_eq!(next, "foo_bar");
    match q.step(Some(vec![index_record("foo_bar", "1.0.0", None, false)])) {
        QueryAction::Resolved(vs) => {
            assert_eq!(vs.len(), 1);
            let dep = read_latest_version(&vs, false, None).unwrap();
            assert_eq!(dep.name, "foo_bar");
            let warning = substitution_warning(&"foo-bar".to_string(), &dep).unwrap();
            assert_eq!(warning, "Added `foo_bar` instead of `foo-bar`");
        }
        _ => panic!("expected records"),
    }
}

#[test]
fn lookup_sequence_not_found() {
    let (mut q, first) = FuzzyQuery::start("abc").unwrap();
    assert_eq!(first, "abc");
    match q.step(None) {
        QueryAction::Failed(FetchError::CrateNotFound(name)) => assert_eq!(name, "abc"),
        _ => panic!("expected not found"),
    }
}

#[test]
fn no_warning_for_same_name() {
    let dep = Dependency { name: "serde".to_string(), version: "1.0.0".to_string() };
    assert!(substitution_warning(&"serde".to_string(), &dep).is_none());
}

#[test]
fn error_messages() {
    assert_eq!(FetchError::EmptyCrateName.message(), "Found empty crate name");
    assert!(FetchError::CrateNotFound("x".to_string()).message().contains("`x`"));
}
