//! Reading the manifest: the JSON document as plain data, and the manifest
//! that a document describes.

use vstd::prelude::*;
use vstd::string::*;
use crate::manifest::{
    distinct_packages, manifest_wf, Dependency, Manifest, NamedTarget, Target, TargetDependencies, VersionSpec,
};
use crate::resolver::ResolveError;

verus! {

/// `serde_json::Value`, carried through as an opaque value.
#[verifier::external_type_specification]
#[verifier::external_body]
pub struct ExJsonValue(serde_json::Value);

/// `serde_json::Error`, carried through as an opaque value.
#[verifier::external_type_specification]
#[verifier::external_body]
pub struct ExJsonError(serde_json::Error);

/// A JSON value.
#[derive(Debug)]
pub enum JsonValue {
    Null,
    Bool(bool),
    /// A number, as the unsigned and the signed 64-bit integer that it is, each
    /// where it is one.
    Number(Option<u64>, Option<i64>),
    Text(String),
    Array(Vec<JsonValue>),
    Object(Vec<JsonField>),
}

/// One member of a JSON object.
#[derive(Debug)]
pub struct JsonField {
    pub key: String,
    pub value: JsonValue,
}

/// The value of the first member named `key`, if there is one.
pub open spec fn field_of(fields: Seq<JsonField>, key: Seq<char>) -> Option<JsonValue>
    decreases fields.len(),
{
    if fields.len() == 0 {
        None
    } else if fields[0].key@ == key {
        Some(fields[0].value)
    } else {
        field_of(fields.drop_first(), key)
    }
}

/// The text of the member named `key`, where there is one and it is a string.
pub open spec fn text_of(fields: Seq<JsonField>, key: Seq<char>) -> Option<Seq<char>> {
    match field_of(fields, key) {
        Some(JsonValue::Text(s)) => Some(s@),
        _ => None,
    }
}

/// The members of an object; `None` for every other value.
pub open spec fn fields_of(v: JsonValue) -> Option<Seq<JsonField>> {
    match v {
        JsonValue::Object(fields) => Some(fields@),
        _ => None,
    }
}

/// The version specifier that a JSON value spells: a non-negative integer
/// pins that version, any string asks for the latest; nothing else is one.
pub open spec fn version_of(v: JsonValue) -> Option<VersionSpec> {
    match v {
        JsonValue::Number(Some(n), _) => Some(VersionSpec::Pinned(n)),
        JsonValue::Text(_) => Some(VersionSpec::Latest),
        _ => None,
    }
}

/// Whether `v` is an object with the three endpoint strings of a target.
pub open spec fn is_target(v: JsonValue) -> bool {
    match fields_of(v) {
        Some(f) => text_of(f, "asset-hub"@) is Some && text_of(f, "bulletin"@) is Some && text_of(
            f,
            "registry"@,
        ) is Some,
        None => false,
    }
}

/// Whether `t` holds the three endpoint strings of the object `v`.
pub open spec fn target_describes(t: Target, v: JsonValue) -> bool {
    match fields_of(v) {
        Some(f) => text_of(f, "asset-hub"@) == Some(t.asset_hub@) && text_of(f, "bulletin"@)
            == Some(t.bulletin@) && text_of(f, "registry"@) == Some(t.registry@),
        None => false,
    }
}

/// Whether `v` is an object whose members are all targets.
pub open spec fn are_targets(v: JsonValue) -> bool {
    match fields_of(v) {
        Some(f) => forall|i: int| 0 <= i < f.len() ==> is_target((#[trigger] f[i]).value),
        None => false,
    }
}

/// Whether `ts` holds the members of the object `v`, one target each, in order.
pub open spec fn targets_describe(ts: Seq<NamedTarget>, v: JsonValue) -> bool {
    match fields_of(v) {
        Some(f) => ts.len() == f.len() && forall|i: int|
            0 <= i < f.len() ==> (#[trigger] ts[i]).target_id@ == f[i].key@ && target_describes(
                ts[i].target,
                f[i].value,
            ),
        None => false,
    }
}

/// Whether `v` is an object whose members are all version specifiers.
pub open spec fn are_packages(v: JsonValue) -> bool {
    match fields_of(v) {
        Some(f) => forall|i: int| 0 <= i < f.len() ==> version_of((#[trigger] f[i]).value) is Some,
        None => false,
    }
}

/// Whether `ps` holds the members of the object `v`, one package each, in order.
pub open spec fn packages_describe(ps: Seq<Dependency>, v: JsonValue) -> bool {
    match fields_of(v) {
        Some(f) => ps.len() == f.len() && forall|i: int|
            0 <= i < f.len() ==> (#[trigger] ps[i]).name@ == f[i].key@ && version_of(f[i].value)
                == Some(ps[i].version),
        None => false,
    }
}

/// Whether `v` is an object whose members are all package maps.
pub open spec fn are_dependencies(v: JsonValue) -> bool {
    match fields_of(v) {
        Some(f) => forall|i: int| 0 <= i < f.len() ==> are_packages((#[trigger] f[i]).value),
        None => false,
    }
}

/// Whether `ds` holds the members of the object `v`, one target's packages
/// each, in order.
pub open spec fn dependencies_describe(ds: Seq<TargetDependencies>, v: JsonValue) -> bool {
    match fields_of(v) {
        Some(f) => ds.len() == f.len() && forall|i: int|
            0 <= i < f.len() ==> (#[trigger] ds[i]).target_id@ == f[i].key@ && packages_describe(
                ds[i].packages@,
                f[i].value,
            ),
        None => false,
    }
}

/// Whether a document has the structure of a manifest: an object with a
/// member `targets` that holds targets and a member `dependencies` that holds
/// package maps.
pub open spec fn is_manifest(doc: JsonValue) -> bool {
    match fields_of(doc) {
        Some(f) => match (field_of(f, "targets"@), field_of(f, "dependencies"@)) {
            (Some(t), Some(d)) => are_targets(t) && are_dependencies(d),
            _ => false,
        },
        None => false,
    }
}

/// Whether `m` holds what the document states.
pub open spec fn manifest_describes(m: Manifest, doc: JsonValue) -> bool {
    match fields_of(doc) {
        Some(f) => match (field_of(f, "targets"@), field_of(f, "dependencies"@)) {
            (Some(t), Some(d)) => targets_describe(m.targets@, t) && dependencies_describe(
                m.dependencies@,
                d,
            ),
            _ => false,
        },
        None => false,
    }
}

/// Whether no member name occurs twice.
pub open spec fn distinct_keys(fields: Seq<JsonField>) -> bool {
    forall|i: int, j: int|
        0 <= i < j < fields.len() ==> (#[trigger] fields[i]).key@ != (#[trigger] fields[j]).key@
}

/// Whether no object anywhere in `v` has two members of one name.
pub open spec fn well_keyed(v: JsonValue) -> bool
    decreases v,
{
    match v {
        JsonValue::Object(fields) => distinct_keys(fields@) && forall|i: int|
            0 <= i < fields.len() ==> well_keyed((#[trigger] fields[i]).value),
        JsonValue::Array(items) => forall|i: int|
            0 <= i < items.len() ==> well_keyed(#[trigger] items[i]),
        _ => true,
    }
}

/// A member that `field_of` finds is one of the members.
pub proof fn lemma_field_of(fields: Seq<JsonField>, key: Seq<char>)
    ensures
        field_of(fields, key) is Some ==> exists|i: int|
            0 <= i < fields.len() && field_of(fields, key) == Some((#[trigger] fields[i]).value),
    decreases fields.len(),
{
    if fields.len() > 0 && fields[0].key@ != key {
        let rest = fields.drop_first();
        lemma_field_of(rest, key);
        if field_of(rest, key) is Some {
            let i = choose|i: int|
                0 <= i < rest.len() && field_of(rest, key) == Some((#[trigger] rest[i]).value);
            assert(fields[i + 1] == rest[i]);
        }
    } else if fields.len() > 0 {
        assert(field_of(fields, key) == Some(fields[0].value));
    }
}

/// A manifest read from a document in which no object has two members of one
/// name is well formed.
pub proof fn lemma_described_manifest_is_wf(m: Manifest, doc: JsonValue)
    requires
        well_keyed(doc),
        manifest_describes(m, doc),
    ensures
        manifest_wf(m),
{
    let f = fields_of(doc)->Some_0;
    lemma_field_of(f, "targets"@);
    lemma_field_of(f, "dependencies"@);
    let t = field_of(f, "targets"@)->Some_0;
    let d = field_of(f, "dependencies"@)->Some_0;
    assert(well_keyed(t));
    assert(well_keyed(d));
    let tf = fields_of(t)->Some_0;
    let df = fields_of(d)->Some_0;
    assert forall|i: int, j: int| 0 <= i < j < m.targets.len() implies (
    #[trigger] m.targets[i]).target_id@ != (#[trigger] m.targets[j]).target_id@ by {
        assert(tf[i].key@ != tf[j].key@);
    }
    assert forall|i: int, j: int| 0 <= i < j < m.dependencies.len() implies (
    #[trigger] m.dependencies[i]).target_id@ != (#[trigger] m.dependencies[j]).target_id@ by {
        assert(df[i].key@ != df[j].key@);
    }
    assert forall|i: int| 0 <= i < m.dependencies.len() implies distinct_packages(
        (#[trigger] m.dependencies[i]).packages@,
    ) by {
        let ps = m.dependencies[i].packages@;
        assert(well_keyed(df[i].value));
        let pf = fields_of(df[i].value)->Some_0;
        assert forall|a: int, b: int| 0 <= a < b < ps.len() implies (#[trigger] ps[a]).name@ != (
        #[trigger] ps[b]).name@ by {
            assert(pf[a].key@ != pf[b].key@);
        }
    }
}

/// What kind of value `v` is, in words.
pub open spec fn kind_name(v: JsonValue) -> Seq<char> {
    match v {
        JsonValue::Null => "null"@,
        JsonValue::Bool(_) => "a boolean"@,
        JsonValue::Number(Some(_), _) => "a non-negative integer"@,
        JsonValue::Number(None, _) => "a negative or fractional number"@,
        JsonValue::Text(_) => "a string"@,
        JsonValue::Array(_) => "an array"@,
        JsonValue::Object(_) => "an object"@,
    }
}

/// The fault of a value that should be an object and is none.
pub open spec fn not_an_object(v: JsonValue) -> Seq<char> {
    "expected an object, found "@ + kind_name(v)
}

/// The fault of an object that lacks the member `key`.
pub open spec fn missing_member(key: Seq<char>) -> Seq<char> {
    "missing member `"@ + key + "`"@
}

/// A fault, with the place it was found at in front: `label` says what kind of
/// place it is and opens the quotation of its name.
pub open spec fn labelled(label: Seq<char>, key: Seq<char>, fault: Seq<char>) -> Seq<char> {
    label + key + "`: "@ + fault
}

/// What is wrong with the string member `key` of an object, if anything.
pub open spec fn text_defect(fields: Seq<JsonField>, key: Seq<char>) -> Option<Seq<char>> {
    match field_of(fields, key) {
        None => Some(missing_member(key)),
        Some(JsonValue::Text(_)) => None,
        Some(v) => Some(labelled("member `"@, key, "expected a string, found "@ + kind_name(v))),
    }
}

/// What is wrong with a value as a target, if anything: the first fault among
/// its three endpoint strings, in the order `asset-hub`, `bulletin`, `registry`.
pub open spec fn target_defect(v: JsonValue) -> Option<Seq<char>> {
    match v {
        JsonValue::Object(fields) => if text_defect(fields@, "asset-hub"@) is Some {
            text_defect(fields@, "asset-hub"@)
        } else if text_defect(fields@, "bulletin"@) is Some {
            text_defect(fields@, "bulletin"@)
        } else {
            text_defect(fields@, "registry"@)
        },
        _ => Some(not_an_object(v)),
    }
}

/// What is wrong with a value as a version specifier, if anything.
pub open spec fn version_defect(v: JsonValue) -> Option<Seq<char>> {
    if version_of(v) is Some {
        None
    } else {
        Some("expected a non-negative integer or a string, found "@ + kind_name(v))
    }
}

/// The fault of the first member that is no target, under that member's name.
pub open spec fn first_target_defect(fields: Seq<JsonField>) -> Option<Seq<char>>
    decreases fields.len(),
{
    if fields.len() == 0 {
        None
    } else {
        match target_defect(fields[0].value) {
            Some(fault) => Some(labelled("target `"@, fields[0].key@, fault)),
            None => first_target_defect(fields.drop_first()),
        }
    }
}

/// What is wrong with a value as the targets of a manifest, if anything.
pub open spec fn targets_defect(v: JsonValue) -> Option<Seq<char>> {
    match v {
        JsonValue::Object(fields) => first_target_defect(fields@),
        _ => Some(not_an_object(v)),
    }
}

/// The fault of the first member that is no version specifier, under that
/// member's name.
pub open spec fn first_package_defect(fields: Seq<JsonField>) -> Option<Seq<char>>
    decreases fields.len(),
{
    if fields.len() == 0 {
        None
    } else {
        match version_defect(fields[0].value) {
            Some(fault) => Some(labelled("package `"@, fields[0].key@, fault)),
            None => first_package_defect(fields.drop_first()),
        }
    }
}

/// What is wrong with a value as the packages of one target, if anything.
pub open spec fn packages_defect(v: JsonValue) -> Option<Seq<char>> {
    match v {
        JsonValue::Object(fields) => first_package_defect(fields@),
        _ => Some(not_an_object(v)),
    }
}

/// The fault of the first member that is no package map, under that member's
/// name.
pub open spec fn first_dependencies_defect(fields: Seq<JsonField>) -> Option<Seq<char>>
    decreases fields.len(),
{
    if fields.len() == 0 {
        None
    } else {
        match packages_defect(fields[0].value) {
            Some(fault) => Some(labelled("target `"@, fields[0].key@, fault)),
            None => first_dependencies_defect(fields.drop_first()),
        }
    }
}

/// What is wrong with a value as the dependencies of a manifest, if anything.
pub open spec fn dependencies_defect(v: JsonValue) -> Option<Seq<char>> {
    match v {
        JsonValue::Object(fields) => first_dependencies_defect(fields@),
        _ => Some(not_an_object(v)),
    }
}

/// What is wrong with a document as a manifest, if anything: the first fault
/// found, `targets` before `dependencies` and members in their order, with the
/// members it lies in named from the outside in and the kind of value found.
pub open spec fn manifest_defect(doc: JsonValue) -> Option<Seq<char>> {
    match doc {
        JsonValue::Object(fields) => match field_of(fields@, "targets"@) {
            None => Some(missing_member("targets"@)),
            Some(t) => match targets_defect(t) {
                Some(fault) => Some(labelled("member `"@, "targets"@, fault)),
                None => match field_of(fields@, "dependencies"@) {
                    None => Some(missing_member("dependencies"@)),
                    Some(d) => match dependencies_defect(d) {
                        Some(fault) => Some(labelled("member `"@, "dependencies"@, fault)),
                        None => None,
                    },
                },
            },
        },
        _ => Some(not_an_object(doc)),
    }
}

/// The members of an object are all targets exactly when none of them has a
/// fault as a target.
pub proof fn lemma_first_target_defect(fields: Seq<JsonField>)
    ensures
        first_target_defect(fields) is None <==> forall|i: int|
            0 <= i < fields.len() ==> is_target((#[trigger] fields[i]).value),
    decreases fields.len(),
{
    if fields.len() > 0 {
        let rest = fields.drop_first();
        lemma_first_target_defect(rest);
        assert forall|i: int| 0 <= i < rest.len() implies rest[i] == fields[i + 1] by {}
        if first_target_defect(fields) is None {
            assert forall|i: int| 0 <= i < fields.len() implies is_target(
                (#[trigger] fields[i]).value,
            ) by {
                if i > 0 {
                    assert(rest[i - 1] == fields[i]);
                }
            }
        }
        if forall|i: int| 0 <= i < fields.len() ==> is_target((#[trigger] fields[i]).value) {
            assert(is_target(fields[0].value));
            assert forall|i: int| 0 <= i < rest.len() implies is_target(
                (#[trigger] rest[i]).value,
            ) by {
                assert(is_target(fields[i + 1].value));
            }
        }
    }
}

/// The members of an object are all version specifiers exactly when none of
/// them has a fault as one.
pub proof fn lemma_first_package_defect(fields: Seq<JsonField>)
    ensures
        first_package_defect(fields) is None <==> forall|i: int|
            0 <= i < fields.len() ==> version_of((#[trigger] fields[i]).value) is Some,
    decreases fields.len(),
{
    if fields.len() > 0 {
        let rest = fields.drop_first();
        lemma_first_package_defect(rest);
        assert forall|i: int| 0 <= i < rest.len() implies rest[i] == fields[i + 1] by {}
        if first_package_defect(fields) is None {
            assert forall|i: int| 0 <= i < fields.len() implies version_of(
                (#[trigger] fields[i]).value,
            ) is Some by {
                if i > 0 {
                    assert(rest[i - 1] == fields[i]);
                }
            }
        }
        if forall|i: int| 0 <= i < fields.len() ==> version_of((#[trigger] fields[i]).value)
            is Some {
            assert(version_of(fields[0].value) is Some);
            assert forall|i: int| 0 <= i < rest.len() implies version_of(
                (#[trigger] rest[i]).value,
            ) is Some by {
                assert(version_of(fields[i + 1].value) is Some);
            }
        }
    }
}

/// A value is a package map exactly when it has no fault as one.
pub proof fn lemma_packages_defect(v: JsonValue)
    ensures
        packages_defect(v) is None <==> are_packages(v),
{
    if let JsonValue::Object(fields) = v {
        lemma_first_package_defect(fields@);
    }
}

/// The members of an object are all package maps exactly when none of them has
/// a fault as one.
pub proof fn lemma_first_dependencies_defect(fields: Seq<JsonField>)
    ensures
        first_dependencies_defect(fields) is None <==> forall|i: int|
            0 <= i < fields.len() ==> are_packages((#[trigger] fields[i]).value),
    decreases fields.len(),
{
    if fields.len() > 0 {
        let rest = fields.drop_first();
        lemma_first_dependencies_defect(rest);
        lemma_packages_defect(fields[0].value);
        assert forall|i: int| 0 <= i < rest.len() implies rest[i] == fields[i + 1] by {}
        if first_dependencies_defect(fields) is None {
            assert forall|i: int| 0 <= i < fields.len() implies are_packages(
                (#[trigger] fields[i]).value,
            ) by {
                if i > 0 {
                    assert(rest[i - 1] == fields[i]);
                }
            }
        }
        if forall|i: int| 0 <= i < fields.len() ==> are_packages((#[trigger] fields[i]).value) {
            assert(are_packages(fields[0].value));
            assert forall|i: int| 0 <= i < rest.len() implies are_packages(
                (#[trigger] rest[i]).value,
            ) by {
                assert(are_packages(fields[i + 1].value));
            }
        }
    }
}

/// A document has the structure of a manifest exactly when it has no fault:
/// every document that is refused is refused with a fault, and no document that
/// is accepted has one.
pub proof fn lemma_manifest_defect(doc: JsonValue)
    ensures
        manifest_defect(doc) is None <==> is_manifest(doc),
{
    if let JsonValue::Object(fields) = doc {
        if let Some(t) = field_of(fields@, "targets"@) {
            if let JsonValue::Object(members) = t {
                lemma_first_target_defect(members@);
            }
        }
        if let Some(d) = field_of(fields@, "dependencies"@) {
            if let JsonValue::Object(members) = d {
                lemma_first_dependencies_defect(members@);
            }
        }
    }
}

/// The document that a text spells in JSON; `None` for a text that is no JSON.
pub uninterp spec fn json_parsed(text: Seq<char>) -> Option<JsonValue>;

/// What a `serde_json::Value` holds, as a `JsonValue`.
pub uninterp spec fn json_model(value: serde_json::Value) -> JsonValue;

/// Trusted: `serde_json::from_str` at `serde_json::Value`. Whether it accepts a
/// text, and the value it then gives, depend on the text alone.
#[verifier::external_body]
fn json_from_str(text: &str) -> (r: Result<serde_json::Value, serde_json::Error>)
    ensures
        match r {
            Ok(value) => json_parsed(text@) == Some(json_model(value)),
            Err(_) => json_parsed(text@) is None,
        },
{
    serde_json::from_str::<serde_json::Value>(text)
}

/// Trusted: the `Display` text of a `serde_json::Error`. Nothing is claimed of it.
#[verifier::external_body]
fn json_error_text(error: &serde_json::Error) -> (r: String) {
    error.to_string()
}

/// Trusted: copies a `serde_json::Value` into a `JsonValue`, variant by
/// variant, members in the order of the map's iterator; of a number it keeps
/// what `Number::as_u64` and `Number::as_i64` give. The copy depends on the
/// value alone, and no object in it has two members of one name, as a
/// `serde_json::Map` holds each key once.
#[verifier::external_body]
fn json_value_from(value: &serde_json::Value) -> (r: JsonValue)
    ensures
        r == json_model(*value),
        well_keyed(r),
{
    match value {
        serde_json::Value::Null => JsonValue::Null,
        serde_json::Value::Bool(b) => JsonValue::Bool(*b),
        serde_json::Value::Number(n) => JsonValue::Number(n.as_u64(), n.as_i64()),
        serde_json::Value::String(s) => JsonValue::Text(s.clone()),
        serde_json::Value::Array(a) => JsonValue::Array(a.iter().map(json_value_from).collect()),
        serde_json::Value::Object(o) => JsonValue::Object(
            o.iter().map(|(k, v)| JsonField { key: k.clone(), value: json_value_from(v) }).collect(),
        ),
    }
}

/// Finds the member of an object by its name.
pub fn find_field<'a>(fields: &'a Vec<JsonField>, key: &str) -> (r: Option<&'a JsonValue>)
    ensures
        match r {
            Some(v) => field_of(fields@, key@) == Some(*v),
            None => field_of(fields@, key@) is None,
        },
{
    let wanted = String::from_str(key);
    let mut i: usize = 0;
    assert(fields@.subrange(0, fields.len() as int) =~= fields@);
    while i < fields.len()
        invariant
            i <= fields.len(),
            wanted@ == key@,
            field_of(fields@, key@) == field_of(
                fields@.subrange(i as int, fields.len() as int),
                key@,
            ),
        decreases fields.len() - i,
    {
        proof {
            let tail = fields@.subrange(i as int, fields.len() as int);
            assert(tail[0] == fields@[i as int]);
            assert(tail.drop_first() =~= fields@.subrange(i + 1, fields.len() as int));
        }
        if fields[i].key == wanted {
            return Some(&fields[i].value);
        }
        i += 1;
    }
    None
}

/// Says in words what kind of value `v` is.
pub fn kind_text(v: &JsonValue) -> (r: String)
    ensures
        r@ == kind_name(*v),
{
    match v {
        JsonValue::Null => String::from_str("null"),
        JsonValue::Bool(_) => String::from_str("a boolean"),
        JsonValue::Number(Some(_), _) => String::from_str("a non-negative integer"),
        JsonValue::Number(None, _) => String::from_str("a negative or fractional number"),
        JsonValue::Text(_) => String::from_str("a string"),
        JsonValue::Array(_) => String::from_str("an array"),
        JsonValue::Object(_) => String::from_str("an object"),
    }
}

fn found_instead(expected: &str, v: &JsonValue) -> (r: String)
    ensures
        r@ == expected@ + kind_name(*v),
{
    let mut out = String::from_str(expected);
    let kind = kind_text(v);
    out.append(kind.as_str());
    out
}

fn missing_member_text(key: &str) -> (r: String)
    ensures
        r@ == missing_member(key@),
{
    let mut out = String::from_str("missing member `");
    out.append(key);
    out.append("`");
    out
}

fn labelled_text(label: &str, key: &str, fault: &str) -> (r: String)
    ensures
        r@ == labelled(label@, key@, fault@),
{
    let mut out = String::from_str(label);
    out.append(key);
    out.append("`: ");
    out.append(fault);
    out
}

/// The text of the member named `key`, or what is wrong with that member: it
/// is missing, or it is no string.
pub fn text_field(fields: &Vec<JsonField>, key: &str) -> (r: Result<String, String>)
    ensures
        match r {
            Ok(s) => text_of(fields@, key@) == Some(s@) && text_defect(fields@, key@) is None,
            Err(fault) => text_of(fields@, key@) is None && text_defect(fields@, key@) == Some(
                fault@,
            ),
        },
{
    match find_field(fields, key) {
        None => Err(missing_member_text(key)),
        Some(JsonValue::Text(s)) => Ok(s.clone()),
        Some(v) => {
            let fault = found_instead("expected a string, found ", v);
            Err(labelled_text("member `", key, fault.as_str()))
        },
    }
}

/// Reads a version specifier.
pub fn decode_version(v: &JsonValue) -> (r: Option<VersionSpec>)
    ensures
        r == version_of(*v),
{
    match v {
        JsonValue::Number(Some(n), _) => Some(VersionSpec::Pinned(*n)),
        JsonValue::Text(_) => Some(VersionSpec::Latest),
        _ => None,
    }
}

/// Reads the endpoints of one target, or says what is wrong with it.
pub fn decode_target(v: &JsonValue) -> (r: Result<Target, String>)
    ensures
        match r {
            Ok(t) => is_target(*v) && target_describes(t, *v) && target_defect(*v) is None,
            Err(fault) => !is_target(*v) && target_defect(*v) == Some(fault@),
        },
{
    match v {
        JsonValue::Object(fields) => {
            let asset_hub = match text_field(fields, "asset-hub") {
                Ok(s) => s,
                Err(fault) => {
                    return Err(fault);
                },
            };
            let bulletin = match text_field(fields, "bulletin") {
                Ok(s) => s,
                Err(fault) => {
                    return Err(fault);
                },
            };
            let registry = match text_field(fields, "registry") {
                Ok(s) => s,
                Err(fault) => {
                    return Err(fault);
                },
            };
            Ok(Target { asset_hub, bulletin, registry })
        },
        _ => Err(found_instead("expected an object, found ", v)),
    }
}

/// Reads the targets of a manifest, or says what is wrong with the first
/// member that is no target.
pub fn decode_targets(v: &JsonValue) -> (r: Result<Vec<NamedTarget>, String>)
    ensures
        match r {
            Ok(ts) => are_targets(*v) && targets_describe(ts@, *v) && targets_defect(*v) is None,
            Err(fault) => !are_targets(*v) && targets_defect(*v) == Some(fault@),
        },
{
    match v {
        JsonValue::Object(fields) => {
            let mut out: Vec<NamedTarget> = Vec::new();
            let mut i: usize = 0;
            assert(fields@.subrange(0, fields.len() as int) =~= fields@);
            while i < fields.len()
                invariant
                    fields_of(*v) == Some(fields@),
                    i <= fields.len(),
                    out.len() == i,
                    first_target_defect(fields@) == first_target_defect(
                        fields@.subrange(i as int, fields.len() as int),
                    ),
                    forall|k: int| 0 <= k < i ==> is_target((#[trigger] fields[k]).value),
                    forall|k: int|
                        0 <= k < i ==> (#[trigger] out[k]).target_id@ == fields[k].key@
                            && target_describes(out[k].target, fields[k].value),
                decreases fields.len() - i,
            {
                proof {
                    let tail = fields@.subrange(i as int, fields.len() as int);
                    assert(tail[0] == fields@[i as int]);
                    assert(tail.drop_first() =~= fields@.subrange(i + 1, fields.len() as int));
                }
                match decode_target(&fields[i].value) {
                    Ok(target) => {
                        out.push(NamedTarget { target_id: fields[i].key.clone(), target });
                    },
                    Err(fault) => {
                        return Err(
                            labelled_text("target `", fields[i].key.as_str(), fault.as_str()),
                        );
                    },
                }
                i += 1;
            }
            Ok(out)
        },
        _ => Err(found_instead("expected an object, found ", v)),
    }
}

/// Reads the packages that one target depends on, or says what is wrong with
/// the first member that is no version specifier.
pub fn decode_packages(v: &JsonValue) -> (r: Result<Vec<Dependency>, String>)
    ensures
        match r {
            Ok(ps) => are_packages(*v) && packages_describe(ps@, *v) && packages_defect(*v)
                is None,
            Err(fault) => !are_packages(*v) && packages_defect(*v) == Some(fault@),
        },
{
    match v {
        JsonValue::Object(fields) => {
            let mut out: Vec<Dependency> = Vec::new();
            let mut i: usize = 0;
            assert(fields@.subrange(0, fields.len() as int) =~= fields@);
            while i < fields.len()
                invariant
                    fields_of(*v) == Some(fields@),
                    i <= fields.len(),
                    out.len() == i,
                    first_package_defect(fields@) == first_package_defect(
                        fields@.subrange(i as int, fields.len() as int),
                    ),
                    forall|k: int|
                        0 <= k < i ==> version_of((#[trigger] fields[k]).value) is Some,
                    forall|k: int|
                        0 <= k < i ==> (#[trigger] out[k]).name@ == fields[k].key@ && version_of(
                            fields[k].value,
                        ) == Some(out[k].version),
                decreases fields.len() - i,
            {
                proof {
                    let tail = fields@.subrange(i as int, fields.len() as int);
                    assert(tail[0] == fields@[i as int]);
                    assert(tail.drop_first() =~= fields@.subrange(i + 1, fields.len() as int));
                }
                match decode_version(&fields[i].value) {
                    Some(version) => {
                        out.push(Dependency { name: fields[i].key.clone(), version });
                    },
                    None => {
                        let fault = found_instead(
                            "expected a non-negative integer or a string, found ",
                            &fields[i].value,
                        );
                        return Err(
                            labelled_text("package `", fields[i].key.as_str(), fault.as_str()),
                        );
                    },
                }
                i += 1;
            }
            Ok(out)
        },
        _ => Err(found_instead("expected an object, found ", v)),
    }
}

/// Reads the dependencies of a manifest, or says what is wrong with the first
/// member that is no package map.
pub fn decode_dependencies(v: &JsonValue) -> (r: Result<Vec<TargetDependencies>, String>)
    ensures
        match r {
            Ok(ds) => are_dependencies(*v) && dependencies_describe(ds@, *v)
                && dependencies_defect(*v) is None,
            Err(fault) => !are_dependencies(*v) && dependencies_defect(*v) == Some(fault@),
        },
{
    match v {
        JsonValue::Object(fields) => {
            let mut out: Vec<TargetDependencies> = Vec::new();
            let mut i: usize = 0;
            assert(fields@.subrange(0, fields.len() as int) =~= fields@);
            while i < fields.len()
                invariant
                    fields_of(*v) == Some(fields@),
                    i <= fields.len(),
                    out.len() == i,
                    first_dependencies_defect(fields@) == first_dependencies_defect(
                        fields@.subrange(i as int, fields.len() as int),
                    ),
                    forall|k: int| 0 <= k < i ==> are_packages((#[trigger] fields[k]).value),
                    forall|k: int|
                        0 <= k < i ==> (#[trigger] out[k]).target_id@ == fields[k].key@
                            && packages_describe(out[k].packages@, fields[k].value),
                decreases fields.len() - i,
            {
                proof {
                    let tail = fields@.subrange(i as int, fields.len() as int);
                    assert(tail[0] == fields@[i as int]);
                    assert(tail.drop_first() =~= fields@.subrange(i + 1, fields.len() as int));
                }
                match decode_packages(&fields[i].value) {
                    Ok(packages) => {
                        out.push(TargetDependencies { target_id: fields[i].key.clone(), packages });
                    },
                    Err(fault) => {
                        return Err(
                            labelled_text("target `", fields[i].key.as_str(), fault.as_str()),
                        );
                    },
                }
                i += 1;
            }
            Ok(out)
        },
        _ => Err(found_instead("expected an object, found ", v)),
    }
}

fn decode_manifest(doc: &JsonValue) -> (r: Result<Manifest, String>)
    ensures
        match r {
            Ok(m) => is_manifest(*doc) && manifest_describes(m, *doc) && manifest_defect(*doc)
                is None,
            Err(fault) => !is_manifest(*doc) && manifest_defect(*doc) == Some(fault@),
        },
{
    match doc {
        JsonValue::Object(fields) => {
            let targets = match find_field(fields, "targets") {
                None => {
                    return Err(missing_member_text("targets"));
                },
                Some(t) => match decode_targets(t) {
                    Ok(targets) => targets,
                    Err(fault) => {
                        return Err(labelled_text("member `", "targets", fault.as_str()));
                    },
                },
            };
            let dependencies = match find_field(fields, "dependencies") {
                None => {
                    return Err(missing_member_text("dependencies"));
                },
                Some(d) => match decode_dependencies(d) {
                    Ok(dependencies) => dependencies,
                    Err(fault) => {
                        return Err(labelled_text("member `", "dependencies", fault.as_str()));
                    },
                },
            };
            Ok(Manifest { targets, dependencies })
        },
        _ => Err(found_instead("expected an object, found ", doc)),
    }
}

/// Reads a manifest from a JSON document.
///
/// Succeeds exactly on the documents that have the structure of a manifest,
/// with the targets and the dependencies that the document states; every other
/// document is `ManifestMalformed`, with the path of the file it came from and,
/// as its detail, the first fault of the document.
pub fn manifest_from_json(doc: &JsonValue, path: &str) -> (r: Result<Manifest, ResolveError>)
    ensures
        match r {
            Ok(m) => is_manifest(*doc) && manifest_describes(m, *doc) && manifest_defect(*doc)
                is None && (well_keyed(*doc) ==> manifest_wf(m)),
            Err(ResolveError::ManifestMalformed { path: p, detail }) => !is_manifest(*doc) && p@
                == path@ && manifest_defect(*doc) == Some(detail@),
            Err(_) => false,
        },
{
    match decode_manifest(doc) {
        Ok(m) => {
            proof {
                if well_keyed(*doc) {
                    lemma_described_manifest_is_wf(m, *doc);
                }
            }
            Ok(m)
        },
        Err(detail) => Err(
            ResolveError::ManifestMalformed { path: String::from_str(path), detail },
        ),
    }
}

/// What parsing the text of the manifest at `path` gives: the manifest that
/// the text spells, or `ManifestMalformed` with the path and, where the text
/// is JSON, the first fault of the document.
pub open spec fn parse_outcome(
    text: Seq<char>,
    path: Seq<char>,
    r: Result<Manifest, ResolveError>,
) -> bool {
    match r {
        Ok(m) => json_parsed(text) matches Some(doc) && is_manifest(doc) && manifest_describes(
            m,
            doc,
        ) && manifest_wf(m) && manifest_defect(doc) is None,
        Err(ResolveError::ManifestMalformed { path: p, detail }) => p@ == path && (match json_parsed(
            text,
        ) {
            Some(doc) => !is_manifest(doc) && manifest_defect(doc) == Some(detail@),
            None => true,
        }),
        Err(_) => false,
    }
}

/// Parses the text of a manifest file.
///
/// Succeeds exactly on the texts that spell, in JSON, a document with the
/// structure of a manifest, and gives the manifest that the document states.
/// Text that is no JSON, and JSON that is no manifest, are `ManifestMalformed`
/// with the path of the file.
pub fn parse_manifest(text: &str, path: &str) -> (r: Result<Manifest, ResolveError>)
    ensures
        parse_outcome(text@, path@, r),
{
    match json_from_str(text) {
        Ok(value) => {
            let doc = json_value_from(&value);
            manifest_from_json(&doc, path)
        },
        Err(error) => Err(
            ResolveError::ManifestMalformed {
                path: String::from_str(path),
                detail: json_error_text(&error),
            },
        ),
    }
}

/// Turns what reading the manifest file gave into the manifest: a failed read
/// is `ManifestUnreadable` with the path and the reason, and text that was read
/// is parsed.
pub fn load_manifest(path: &str, read: Result<String, String>) -> (r: Result<
    Manifest,
    ResolveError,
>)
    ensures
        match read {
            Ok(text) => parse_outcome(text@, path@, r),
            Err(why) => r matches Err(ResolveError::ManifestUnreadable { path: p, detail }) && p@
                == path@ && detail@ == why@,
        },
{
    match read {
        Ok(text) => parse_manifest(text.as_str(), path),
        Err(why) => Err(
            ResolveError::ManifestUnreadable { path: String::from_str(path), detail: why },
        ),
    }
}

} // verus!
