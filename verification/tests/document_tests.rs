use cdm::document::{
    decode_dependencies, decode_packages, decode_target, decode_targets, decode_version,
    find_field, kind_text, load_manifest, manifest_from_json, parse_manifest, text_field, JsonField, JsonValue,
};
use cdm::manifest::VersionSpec;
use cdm::resolver::{find_package, ResolveError};

fn text(s: &str) -> JsonValue {
    JsonValue::Text(s.to_string())
}

fn number(n: u64) -> JsonValue {
    JsonValue::Number(Some(n), i64::try_from(n).ok())
}

fn object(members: Vec<(&str, JsonValue)>) -> JsonValue {
    JsonValue::Object(
        members.into_iter().map(|(k, v)| JsonField { key: k.to_string(), value: v }).collect(),
    )
}

fn endpoints() -> JsonValue {
    object(vec![("asset-hub", text("wss://a")), ("bulletin", text("wss://b")), ("registry", text("0xabc"))])
}

const MANIFEST: &str = r#"{
  "targets": {
    "t1": { "asset-hub": "wss://a", "bulletin": "wss://b", "registry": "0xabc" },
    "t2": { "asset-hub": "wss://c", "bulletin": "wss://d", "registry": "0xdef", "extra": 1 }
  },
  "dependencies": {
    "t1": { "@example/counter": 3, "@example/token": "latest" },
    "t2": { "@example/vault": 18446744073709551615 }
  }
}"#;

fn malformed(result: Result<cdm::manifest::Manifest, ResolveError>) -> (String, String) {
    match result {
        Err(ResolveError::ManifestMalformed { path, detail }) => (path, detail),
        Err(other) => panic!("unexpected error: {:?}", other),
        Ok(_) => panic!("accepted"),
    }
}

#[test]
fn manifest_text_is_parsed() {
    let m = parse_manifest(MANIFEST, "/p/cdm.json").unwrap();
    assert_eq!(m.targets.len(), 2);
    assert_eq!(m.targets[0].target_id, "t1");
    assert_eq!(m.targets[0].target.asset_hub, "wss://a");
    assert_eq!(m.targets[0].target.bulletin, "wss://b");
    assert_eq!(m.targets[0].target.registry, "0xabc");
    assert_eq!(m.targets[1].target_id, "t2");
    assert_eq!(m.targets[1].target.registry, "0xdef");
    assert_eq!(m.dependencies.len(), 2);
    assert_eq!(m.dependencies[0].target_id, "t1");
    assert_eq!(m.dependencies[0].packages.len(), 2);
    assert_eq!(m.dependencies[0].packages[0].name, "@example/counter");
    assert_eq!(m.dependencies[0].packages[0].version, VersionSpec::Pinned(3));
    assert_eq!(m.dependencies[0].packages[1].name, "@example/token");
    assert_eq!(m.dependencies[0].packages[1].version, VersionSpec::Latest);
    assert_eq!(m.dependencies[1].packages[0].version, VersionSpec::Pinned(u64::MAX));
}

#[test]
fn parsed_manifest_resolves_packages() {
    let m = parse_manifest(MANIFEST, "/p/cdm.json").unwrap();
    let located = find_package(&m, "@example/vault").unwrap();
    assert_eq!(located.target_id, "t2");
    assert_eq!(located.version, VersionSpec::Pinned(u64::MAX));
    let located = find_package(&m, "@example/token").unwrap();
    assert_eq!(located.target_id, "t1");
    assert_eq!(located.version, VersionSpec::Latest);
}

#[test]
fn any_string_means_latest() {
    let m = parse_manifest(
        r#"{"targets": {}, "dependencies": {"t": {"a": "", "b": "newest", "c": "7"}}}"#,
        "cdm.json",
    )
    .unwrap();
    for p in &m.dependencies[0].packages {
        assert_eq!(p.version, VersionSpec::Latest);
    }
    assert_eq!(m.dependencies[0].packages.len(), 3);
}

#[test]
fn text_that_is_no_json_is_malformed() {
    let (path, detail) = malformed(parse_manifest("not json", "/p/cdm.json"));
    assert_eq!(path, "/p/cdm.json");
    assert_eq!(detail, "expected ident at line 1 column 2");
    let (path, detail) = malformed(parse_manifest("", "/q/cdm.json"));
    assert_eq!(path, "/q/cdm.json");
    assert_eq!(detail, "EOF while parsing a value at line 1 column 0");
}

#[test]
fn json_that_is_no_manifest_is_malformed() {
    let cases = [
        (r#"[]"#, "expected an object, found an array"),
        (r#"null"#, "expected an object, found null"),
        (r#"7"#, "expected an object, found a non-negative integer"),
        (r#""x""#, "expected an object, found a string"),
        (r#"{}"#, "missing member `targets`"),
        (r#"{"targets": {}}"#, "missing member `dependencies`"),
        (r#"{"dependencies": {}}"#, "missing member `targets`"),
        (
            r#"{"targets": [], "dependencies": {}}"#,
            "member `targets`: expected an object, found an array",
        ),
        (
            r#"{"targets": {}, "dependencies": []}"#,
            "member `dependencies`: expected an object, found an array",
        ),
        (
            r#"{"targets": {"t": 1}, "dependencies": {}}"#,
            "member `targets`: target `t`: expected an object, found a non-negative integer",
        ),
        (
            r#"{"targets": {"t": {"asset-hub": "a", "bulletin": "b"}}, "dependencies": {}}"#,
            "member `targets`: target `t`: missing member `registry`",
        ),
        (
            r#"{"targets": {"t": {"asset-hub": "a", "bulletin": "b", "registry": 1}}, "dependencies": {}}"#,
            "member `targets`: target `t`: member `registry`: expected a string, found a non-negative integer",
        ),
        (
            r#"{"targets": {"t": {"asset-hub": null, "bulletin": 1, "registry": 1}}, "dependencies": {}}"#,
            "member `targets`: target `t`: member `asset-hub`: expected a string, found null",
        ),
        (
            r#"{"targets": {}, "dependencies": {"t": 1}}"#,
            "member `dependencies`: target `t`: expected an object, found a non-negative integer",
        ),
        (
            r#"{"targets": {}, "dependencies": {"t": {"a": -1}}}"#,
            "member `dependencies`: target `t`: package `a`: expected a non-negative integer or a string, found a negative or fractional number",
        ),
        (
            r#"{"targets": {}, "dependencies": {"t": {"a": 1.5}}}"#,
            "member `dependencies`: target `t`: package `a`: expected a non-negative integer or a string, found a negative or fractional number",
        ),
        (
            r#"{"targets": {}, "dependencies": {"t": {"a": true}}}"#,
            "member `dependencies`: target `t`: package `a`: expected a non-negative integer or a string, found a boolean",
        ),
        (
            r#"{"targets": {}, "dependencies": {"t": {"a": null}}}"#,
            "member `dependencies`: target `t`: package `a`: expected a non-negative integer or a string, found null",
        ),
        (
            r#"{"targets": {}, "dependencies": {"t": {"a": [1]}}}"#,
            "member `dependencies`: target `t`: package `a`: expected a non-negative integer or a string, found an array",
        ),
        (
            r#"{"targets": {}, "dependencies": {"s": {"ok": 1}, "t": {"a": 2, "b": {"v": 1}}}}"#,
            "member `dependencies`: target `t`: package `b`: expected a non-negative integer or a string, found an object",
        ),
        (
            r#"{"targets": {}, "dependencies": {"t": {"a": 18446744073709551616}}}"#,
            "member `dependencies`: target `t`: package `a`: expected a non-negative integer or a string, found a negative or fractional number",
        ),
        (
            r#"{"targets": {"t": 1}, "dependencies": 2}"#,
            "member `targets`: target `t`: expected an object, found a non-negative integer",
        ),
    ];
    for (case, expected) in cases {
        let (path, detail) = malformed(parse_manifest(case, "/p/cdm.json"));
        assert_eq!(path, "/p/cdm.json", "{}", case);
        assert_eq!(detail, expected, "{}", case);
    }
    let err = parse_manifest(r#"{"targets": {}, "dependencies": {"t": {"a": true}}}"#, "/p/cdm.json")
        .err()
        .unwrap();
    assert_eq!(
        err.message(),
        "Failed to parse /p/cdm.json: member `dependencies`: target `t`: package `a`: expected a non-negative integer or a string, found a boolean"
    );
}

#[test]
fn empty_manifest_is_accepted() {
    let m = parse_manifest(r#"{"targets": {}, "dependencies": {}}"#, "cdm.json").unwrap();
    assert_eq!(m.targets.len(), 0);
    assert_eq!(m.dependencies.len(), 0);
}

#[test]
fn version_values() {
    assert_eq!(decode_version(&number(0)), Some(VersionSpec::Pinned(0)));
    assert_eq!(decode_version(&number(12)), Some(VersionSpec::Pinned(12)));
    assert_eq!(decode_version(&text("latest")), Some(VersionSpec::Latest));
    assert_eq!(decode_version(&JsonValue::Number(None, Some(-1))), None);
    assert_eq!(decode_version(&JsonValue::Number(None, None)), None);
    assert_eq!(decode_version(&JsonValue::Null), None);
    assert_eq!(decode_version(&JsonValue::Bool(true)), None);
    assert_eq!(decode_version(&JsonValue::Array(Vec::new())), None);
    assert_eq!(decode_version(&object(Vec::new())), None);
}

#[test]
fn fields_are_found_by_name() {
    let doc = object(vec![("a", number(1)), ("b", text("x"))]);
    let fields = match &doc {
        JsonValue::Object(fields) => fields,
        _ => unreachable!(),
    };
    assert!(matches!(find_field(fields, "a"), Some(JsonValue::Number(Some(1), Some(1)))));
    assert!(find_field(fields, "c").is_none());
    assert_eq!(text_field(fields, "b"), Ok("x".to_string()));
    assert_eq!(
        text_field(fields, "a"),
        Err("member `a`: expected a string, found a non-negative integer".to_string())
    );
    assert_eq!(text_field(fields, "c"), Err("missing member `c`".to_string()));
}

#[test]
fn target_needs_three_strings() {
    let t = decode_target(&endpoints()).unwrap();
    assert_eq!(t.asset_hub, "wss://a");
    assert_eq!(t.bulletin, "wss://b");
    assert_eq!(t.registry, "0xabc");
    assert_eq!(
        decode_target(&object(vec![("asset-hub", text("a"))])).err().unwrap(),
        "missing member `bulletin`"
    );
    assert_eq!(decode_target(&text("t")).err().unwrap(), "expected an object, found a string");
    let ts = decode_targets(&object(vec![("t1", endpoints()), ("t2", endpoints())])).unwrap();
    assert_eq!(ts.len(), 2);
    assert_eq!(ts[1].target_id, "t2");
    assert_eq!(
        decode_targets(&object(vec![("t1", endpoints()), ("t2", number(1))])).err().unwrap(),
        "target `t2`: expected an object, found a non-negative integer"
    );
}

#[test]
fn packages_and_dependencies_from_values() {
    let ps = decode_packages(&object(vec![("a", number(1)), ("b", text("latest"))])).unwrap();
    assert_eq!(ps.len(), 2);
    assert_eq!(ps[0].name, "a");
    assert_eq!(ps[0].version, VersionSpec::Pinned(1));
    assert_eq!(ps[1].version, VersionSpec::Latest);
    assert_eq!(
        decode_packages(&object(vec![("a", JsonValue::Null)])).err().unwrap(),
        "package `a`: expected a non-negative integer or a string, found null"
    );
    assert_eq!(
        decode_packages(&number(1)).err().unwrap(),
        "expected an object, found a non-negative integer"
    );
    let ds = decode_dependencies(&object(vec![("t", object(vec![("a", number(2))]))])).unwrap();
    assert_eq!(ds[0].target_id, "t");
    assert_eq!(ds[0].packages[0].version, VersionSpec::Pinned(2));
    assert_eq!(
        decode_dependencies(&object(vec![("t", JsonValue::Bool(false))])).err().unwrap(),
        "target `t`: expected an object, found a boolean"
    );
}

#[test]
fn manifest_from_document() {
    let doc = object(vec![
        ("dependencies", object(vec![("t1", object(vec![("pkg", number(4))]))])),
        ("targets", object(vec![("t1", endpoints())])),
        ("comment", text("ignored")),
    ]);
    let m = manifest_from_json(&doc, "cdm.json").unwrap();
    assert_eq!(m.targets[0].target_id, "t1");
    assert_eq!(m.dependencies[0].packages[0].name, "pkg");
    assert_eq!(m.dependencies[0].packages[0].version, VersionSpec::Pinned(4));
    let (path, detail) = malformed(manifest_from_json(&number(1), "x/cdm.json"));
    assert_eq!(path, "x/cdm.json");
    assert_eq!(detail, "expected an object, found a non-negative integer");
}

#[test]
fn unreadable_manifest_is_reported() {
    match load_manifest("/p/cdm.json", Err("Permission denied".to_string())) {
        Err(ResolveError::ManifestUnreadable { path, detail }) => {
            assert_eq!(path, "/p/cdm.json");
            assert_eq!(detail, "Permission denied");
        }
        other => panic!("unexpected: {:?}", other.map(|m| m.dependencies.len())),
    }
    let err = load_manifest("/p/cdm.json", Err("Permission denied".to_string())).err().unwrap();
    assert_eq!(err.message(), "Failed to read /p/cdm.json: Permission denied");
}

#[test]
fn manifest_that_was_read_is_parsed() {
    let m = load_manifest("/p/cdm.json", Ok(MANIFEST.to_string())).unwrap();
    assert_eq!(m.dependencies.len(), 2);
    let (path, _) = malformed(load_manifest("/p/cdm.json", Ok("{".to_string())));
    assert_eq!(path, "/p/cdm.json");
}

#[test]
fn kinds_of_values_have_names() {
    assert_eq!(kind_text(&JsonValue::Null), "null");
    assert_eq!(kind_text(&JsonValue::Bool(false)), "a boolean");
    assert_eq!(kind_text(&number(3)), "a non-negative integer");
    assert_eq!(kind_text(&JsonValue::Number(None, Some(-3))), "a negative or fractional number");
    assert_eq!(kind_text(&JsonValue::Number(None, None)), "a negative or fractional number");
    assert_eq!(kind_text(&text("x")), "a string");
    assert_eq!(kind_text(&JsonValue::Array(Vec::new())), "an array");
    assert_eq!(kind_text(&object(Vec::new())), "an object");
}
