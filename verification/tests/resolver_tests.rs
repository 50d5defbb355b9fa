use cdm::binding::{derive_module_name, emit_binding};
use cdm::locator::{find_cdm_json, locate_manifest, ManifestProbe};
use cdm::manifest::{
    find_dependency, find_matches, Dependency, Located, Manifest, TargetDependencies, VersionSpec,
};
use cdm::text::{parse_u64, u64_to_string};
use cdm::resolver::{
    artifact_path, cache_root, find_package, join_names, latest_pointer_path, locate_artifact, plan_version,
    version_from_pointer, ResolveError, VersionStep,
};

fn dep(name: &str, version: VersionSpec) -> Dependency {
    Dependency { name: name.to_string(), version }
}

fn target(id: &str, packages: Vec<Dependency>) -> TargetDependencies {
    TargetDependencies { target_id: id.to_string(), packages }
}

fn manifest(dependencies: Vec<TargetDependencies>) -> Manifest {
    Manifest { targets: Vec::new(), dependencies }
}

fn probe(path: &str, exists: bool) -> ManifestProbe {
    ManifestProbe { candidate: path.to_string(), exists }
}

#[test]
fn module_name_is_last_segment_with_underscores() {
    assert_eq!(derive_module_name("@example/counter"), "counter");
    assert_eq!(derive_module_name("@example/counter-reader"), "counter_reader");
    assert_eq!(derive_module_name("a/b/c-d-e"), "c_d_e");
}

#[test]
fn module_name_without_separator_is_whole_name() {
    assert_eq!(derive_module_name("my-package"), "my_package");
    assert_eq!(derive_module_name("plain"), "plain");
}

#[test]
fn module_name_edge_cases() {
    assert_eq!(derive_module_name(""), "");
    assert_eq!(derive_module_name("scope/"), "");
    assert_eq!(derive_module_name("/"), "");
    assert_eq!(derive_module_name("-"), "_");
    assert_eq!(derive_module_name("ns/caf\u{e9}-bar"), "caf__bar");
    assert_eq!(derive_module_name("@scope/my.pkg"), "my_pkg");
    assert_eq!(derive_module_name("@pkg"), "_pkg");
    assert_eq!(derive_module_name("a b+c~d"), "a_b_c_d");
    assert_eq!(derive_module_name("x/AZaz09_"), "AZaz09_");
    assert_eq!(derive_module_name("x/@[`{:"), "_____");
}

#[test]
fn module_name_is_deterministic() {
    assert_eq!(derive_module_name("@x/y-z"), derive_module_name("@x/y-z"));
}

#[test]
fn manifest_found_in_start_directory() {
    let probes = vec![probe("/p/cdm.json", true), probe("/cdm.json", false)];
    assert_eq!(find_cdm_json(&probes), Some("/p/cdm.json".to_string()));
}

#[test]
fn manifest_found_four_levels_up() {
    let from_own = vec![probe("/p/cdm.json", true), probe("/cdm.json", false)];
    let from_below = vec![
        probe("/p/a/b/c/d/cdm.json", false),
        probe("/p/a/b/c/cdm.json", false),
        probe("/p/a/b/cdm.json", false),
        probe("/p/a/cdm.json", false),
        probe("/p/cdm.json", true),
        probe("/cdm.json", false),
    ];
    assert_eq!(find_cdm_json(&from_below), Some("/p/cdm.json".to_string()));
    assert_eq!(find_cdm_json(&from_below), find_cdm_json(&from_own));
}

#[test]
fn nearest_manifest_wins() {
    let probes = vec![probe("/p/a/cdm.json", false), probe("/p/cdm.json", true), probe("/cdm.json", true)];
    assert_eq!(find_cdm_json(&probes), Some("/p/cdm.json".to_string()));
}

#[test]
fn manifest_not_found() {
    let probes = vec![probe("/p/a/cdm.json", false), probe("/p/cdm.json", false), probe("/cdm.json", false)];
    assert_eq!(find_cdm_json(&probes), None);
    assert_eq!(find_cdm_json(&Vec::new()), None);
}

#[test]
fn dependency_lookup() {
    let packages = vec![dep("a", VersionSpec::Pinned(1)), dep("b", VersionSpec::Latest)];
    assert_eq!(find_dependency(&packages, &"a".to_string()), Some(VersionSpec::Pinned(1)));
    assert_eq!(find_dependency(&packages, &"b".to_string()), Some(VersionSpec::Latest));
    assert_eq!(find_dependency(&packages, &"c".to_string()), None);
}

#[test]
fn matches_are_listed_in_manifest_order() {
    let m = manifest(vec![
        target("t1", vec![dep("a", VersionSpec::Pinned(1))]),
        target("t2", vec![dep("b", VersionSpec::Latest)]),
        target("t3", vec![dep("b", VersionSpec::Pinned(2)), dep("a", VersionSpec::Latest)]),
    ]);
    let found = find_matches(&m, &"a".to_string());
    assert_eq!(found.len(), 2);
    assert_eq!(found[0].target_id, "t1");
    assert_eq!(found[0].version, VersionSpec::Pinned(1));
    assert_eq!(found[1].target_id, "t3");
    assert_eq!(found[1].version, VersionSpec::Latest);
}

#[test]
fn package_found_in_one_target() {
    let m = manifest(vec![
        target("t1", vec![dep("a", VersionSpec::Pinned(1))]),
        target("t2", vec![dep("@example/counter", VersionSpec::Pinned(42))]),
    ]);
    let located = find_package(&m, "@example/counter").unwrap();
    assert_eq!(located.target_id, "t2");
    assert_eq!(located.version, VersionSpec::Pinned(42));
}

#[test]
fn package_absent_from_all_targets() {
    let m = manifest(vec![target("t1", vec![dep("a", VersionSpec::Pinned(1))])]);
    match find_package(&m, "missing") {
        Err(ResolveError::PackageNotFound { package }) => assert_eq!(package, "missing"),
        other => panic!("unexpected: {:?}", other.map(|l| l.target_id)),
    }
    let message = find_package(&m, "missing").err().unwrap().message();
    assert_eq!(
        message,
        "Package 'missing' not found in cdm.json dependencies. Run 'cdm install missing' first."
    );
}

#[test]
fn package_in_two_targets_is_ambiguous() {
    let m = manifest(vec![
        target("t1", vec![dep("a", VersionSpec::Pinned(1))]),
        target("t2", vec![dep("a", VersionSpec::Latest)]),
    ]);
    match find_package(&m, "a") {
        Err(ResolveError::AmbiguousTarget { package, targets }) => {
            assert_eq!(package, "a");
            assert_eq!(targets, vec!["t1".to_string(), "t2".to_string()]);
        }
        other => panic!("unexpected: {:?}", other.map(|l| l.target_id)),
    }
}

#[test]
fn ambiguity_does_not_depend_on_target_order() {
    let m = manifest(vec![
        target("t2", vec![dep("a", VersionSpec::Latest)]),
        target("t1", vec![dep("a", VersionSpec::Pinned(1))]),
    ]);
    let err = find_package(&m, "a").err().unwrap();
    match &err {
        ResolveError::AmbiguousTarget { targets, .. } => {
            assert!(targets.contains(&"t1".to_string()));
            assert!(targets.contains(&"t2".to_string()));
            assert_eq!(targets.len(), 2);
        }
        other => panic!("unexpected: {:?}", other),
    }
    assert_eq!(
        err.message(),
        "Package 'a' found in multiple targets: [t2, t1]. Target disambiguation is not yet supported."
    );
}

#[test]
fn names_are_joined_with_comma_and_space() {
    assert_eq!(join_names(&Vec::new()), "");
    assert_eq!(join_names(&vec!["x".to_string()]), "x");
    assert_eq!(join_names(&vec!["x".to_string(), "y".to_string(), "z".to_string()]), "x, y, z");
}

#[test]
fn cache_paths() {
    assert_eq!(
        latest_pointer_path("/home/u/.cdm", "t1", "@example/counter"),
        "/home/u/.cdm/t1/contracts/@example/counter/latest"
    );
    assert_eq!(
        artifact_path("/home/u/.cdm", "t1", "@example/counter", 7),
        "/home/u/.cdm/t1/contracts/@example/counter/7/abi.json"
    );
    assert_eq!(artifact_path("r", "t", "p", 0), "r/t/contracts/p/0/abi.json");
    assert_eq!(
        artifact_path("r", "t", "p", u64::MAX),
        "r/t/contracts/p/18446744073709551615/abi.json"
    );
    assert_eq!(artifact_path("r", "t", "p", 1200), "r/t/contracts/p/1200/abi.json");
}

#[test]
fn pinned_version_needs_no_pointer() {
    let located = Located { target_id: "t1".to_string(), version: VersionSpec::Pinned(5) };
    match plan_version("/root/.cdm", &located, "pkg") {
        VersionStep::Resolved(v) => assert_eq!(v, 5),
        VersionStep::ReadPointer(p) => panic!("asked for {}", p),
    }
}

#[test]
fn latest_version_asks_for_pointer() {
    let located = Located { target_id: "t1".to_string(), version: VersionSpec::Latest };
    match plan_version("/root/.cdm", &located, "pkg") {
        VersionStep::ReadPointer(p) => assert_eq!(p, "/root/.cdm/t1/contracts/pkg/latest"),
        VersionStep::Resolved(v) => panic!("resolved to {}", v),
    }
}

#[test]
fn pointer_names_the_version() {
    assert_eq!(version_from_pointer("p", "pkg", Ok("3".to_string())).unwrap(), 3);
    assert_eq!(version_from_pointer("p", "pkg", Ok("4".to_string())).unwrap(), 4);
    assert_eq!(version_from_pointer("p", "pkg", Ok("0012".to_string())).unwrap(), 12);
    assert_eq!(version_from_pointer("p", "pkg", Ok("+7".to_string())).unwrap(), 7);
    assert_eq!(
        version_from_pointer("p", "pkg", Ok("18446744073709551615".to_string())).unwrap(),
        u64::MAX
    );
}

#[test]
fn malformed_pointer_is_rejected() {
    for bad in ["", "+", "-1", "v3", "3 ", "1.0", "18446744073709551616", "../3"] {
        match version_from_pointer("/c/latest", "pkg", Ok(bad.to_string())) {
            Err(ResolveError::LatestPointerMalformed { path, pointer, package }) => {
                assert_eq!(path, "/c/latest");
                assert_eq!(pointer, bad);
                assert_eq!(package, "pkg");
            }
            other => panic!("unexpected for {:?}: {:?}", bad, other),
        }
    }
    let err = version_from_pointer("/c/latest", "pkg", Ok("v3".to_string())).err().unwrap();
    assert_eq!(
        err.message(),
        "Could not parse version from latest symlink at /c/latest. Target: v3. Run 'cdm install pkg' first."
    );
}

#[test]
fn missing_pointer_is_reported() {
    let err = version_from_pointer("/c/latest", "pkg", Err("No such file".to_string()))
        .err()
        .unwrap();
    match &err {
        ResolveError::LatestPointerMissing { path, detail, package } => {
            assert_eq!(path, "/c/latest");
            assert_eq!(detail, "No such file");
            assert_eq!(package, "pkg");
        }
        other => panic!("unexpected: {:?}", other),
    }
    assert_eq!(
        err.message(),
        "Could not read latest symlink at /c/latest: No such file. Run 'cdm install pkg' first."
    );
}

#[test]
fn artifact_present() {
    let found = locate_artifact("/c", "t1", "ns/pkg", 9, true).unwrap();
    assert_eq!(found.target_id, "t1");
    assert_eq!(found.package_name, "ns/pkg");
    assert_eq!(found.version, 9);
    assert_eq!(found.artifact_path, "/c/t1/contracts/ns/pkg/9/abi.json");
    let binding = emit_binding(&found);
    assert_eq!(binding.module_name, "pkg");
    assert_eq!(binding.artifact_path, "/c/t1/contracts/ns/pkg/9/abi.json");
    assert_eq!(binding.package_name, "ns/pkg");
}

#[test]
fn artifact_missing() {
    let err = locate_artifact("/c", "t1", "pkg", 9, false).err().unwrap();
    match &err {
        ResolveError::ArtifactMissing { path, package } => {
            assert_eq!(path, "/c/t1/contracts/pkg/9/abi.json");
            assert_eq!(package, "pkg");
        }
        other => panic!("unexpected: {:?}", other),
    }
    assert_eq!(
        err.message(),
        "ABI file not found at /c/t1/contracts/pkg/9/abi.json. Run 'cdm install pkg' to download it."
    );
}

#[test]
fn manifest_errors_have_messages() {
    let not_found = ResolveError::ManifestNotFound { searched_from: "/p/a".to_string() };
    assert_eq!(
        not_found.message(),
        "cdm.json not found. Run 'cdm install' to create one. Searched from: /p/a"
    );
    let malformed = ResolveError::ManifestMalformed {
        path: "/p/cdm.json".to_string(),
        detail: "expected value at line 1 column 1".to_string(),
    };
    assert_eq!(
        malformed.message(),
        "Failed to parse /p/cdm.json: expected value at line 1 column 1"
    );
}

#[test]
fn manifest_search_reports_where_it_began() {
    let probes = vec![probe("/p/a/cdm.json", false), probe("/cdm.json", false)];
    match locate_manifest("/p/a", &probes) {
        Err(ResolveError::ManifestNotFound { searched_from }) => assert_eq!(searched_from, "/p/a"),
        other => panic!("unexpected: {:?}", other),
    }
    let probes = vec![probe("/p/a/cdm.json", false), probe("/cdm.json", true)];
    assert_eq!(locate_manifest("/p/a", &probes).unwrap(), "/cdm.json");
}

#[test]
fn decimal_numbers_are_read() {
    assert_eq!(parse_u64("0"), Some(0));
    assert_eq!(parse_u64("42"), Some(42));
    assert_eq!(parse_u64("+42"), Some(42));
    assert_eq!(parse_u64("007"), Some(7));
    assert_eq!(parse_u64("18446744073709551615"), Some(u64::MAX));
    assert_eq!(parse_u64("18446744073709551616"), None);
    assert_eq!(parse_u64("18446744073709551620"), None);
    assert_eq!(parse_u64("99999999999999999999999"), None);
    assert_eq!(parse_u64(""), None);
    assert_eq!(parse_u64("+"), None);
    assert_eq!(parse_u64("++1"), None);
    assert_eq!(parse_u64("-1"), None);
    assert_eq!(parse_u64("1_000"), None);
    assert_eq!(parse_u64(" 1"), None);
    assert_eq!(parse_u64("12a"), None);
    assert_eq!(parse_u64("\u{663}"), None);
}

#[test]
fn decimal_reading_agrees_with_std() {
    for text in ["0", "+0", "10", "0010", "18446744073709551615", "18446744073709551616", "", "+", "-", "x", "1x", "+-1", "1+"] {
        assert_eq!(parse_u64(text), text.parse::<u64>().ok(), "{:?}", text);
    }
}

#[test]
fn decimal_numbers_are_written() {
    assert_eq!(u64_to_string(0), "0");
    assert_eq!(u64_to_string(9), "9");
    assert_eq!(u64_to_string(10), "10");
    assert_eq!(u64_to_string(1234567890), "1234567890");
    assert_eq!(u64_to_string(u64::MAX), "18446744073709551615");
    for v in [0u64, 1, 99, 100, 101, 4_294_967_296, u64::MAX] {
        assert_eq!(u64_to_string(v), v.to_string());
        assert_eq!(parse_u64(&u64_to_string(v)), Some(v));
    }
}

#[test]
fn cache_lies_below_home() {
    assert_eq!(cache_root(Some("/home/u".to_string())).unwrap(), "/home/u/.cdm");
    match cache_root(None) {
        Err(ResolveError::HomeDirectoryUnknown) => {}
        other => panic!("unexpected: {:?}", other),
    }
    assert_eq!(
        cache_root(None).err().unwrap().message(),
        "Could not determine home directory"
    );
}

#[test]
fn probes_behind_the_first_hit_do_not_matter() {
    let full = vec![
        probe("/p/a/cdm.json", false),
        probe("/p/cdm.json", true),
        probe("/cdm.json", true),
    ];
    let cut = vec![probe("/p/a/cdm.json", false), probe("/p/cdm.json", true)];
    assert_eq!(find_cdm_json(&cut), Some("/p/cdm.json".to_string()));
    assert_eq!(find_cdm_json(&cut), find_cdm_json(&full));
}
