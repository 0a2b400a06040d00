use lpm::document::JsonValue;
use lpm::store::MetadataStore;
use lpm::validation::{validate, MetaDocument, Violation};
use lpm::version::Version;

fn text(s: &str) -> JsonValue {
    JsonValue::Text(s.to_string())
}

fn object(members: Vec<(&str, JsonValue)>) -> JsonValue {
    JsonValue::Object(members.into_iter().map(|(k, v)| (k.to_string(), v)).collect())
}

fn store() -> MetadataStore {
    let mut store = MetadataStore::new();
    store.insert_kind("bin").unwrap();
    store.insert_repository("main").unwrap();
    store
}

fn complete() -> Vec<(&'static str, JsonValue)> {
    vec![
        ("name", text("foo")),
        ("maintainer", text("someone")),
        ("installed_size", JsonValue::Number(1024)),
        ("version", text("1.0.0")),
        ("kind", text("bin")),
        ("repository", text("main")),
    ]
}

fn without(key: &str) -> MetaDocument {
    MetaDocument::from_json(&object(complete().into_iter().filter(|(k, _)| *k != key).collect()))
}

fn violations(doc: &MetaDocument, store: &MetadataStore) -> Vec<Violation> {
    validate(doc, store).unwrap_err().violations
}

#[test]
fn document_reads_each_field_by_its_type() {
    let doc = MetaDocument::from_json(&object(vec![
        ("name", text("foo")),
        ("description", text("a tool")),
        ("homepage", JsonValue::Null),
        ("license", text("MIT")),
        ("installed_size", text("1024")),
        ("version", JsonValue::Number(1)),
    ]));
    assert_eq!(doc.name.as_deref(), Some("foo"));
    assert_eq!(doc.description.as_deref(), Some("a tool"));
    assert_eq!(doc.homepage, None);
    assert_eq!(doc.license.as_deref(), Some("MIT"));
    assert_eq!(doc.installed_size, None);
    assert_eq!(doc.version, None);
    assert_eq!(doc.maintainer, None);
    assert_eq!(MetaDocument::from_json(&JsonValue::Array(vec![])).name, None);
}

#[test]
fn a_complete_document_passes() {
    let doc = MetaDocument::from_json(&object(complete()));
    let report = validate(&doc, &store()).unwrap();
    let p = report.package();
    assert_eq!(p.name, "foo");
    assert_eq!(p.description, "");
    assert_eq!(p.maintainer, "someone");
    assert_eq!(p.homepage, None);
    assert_eq!(p.license, None);
    assert_eq!(p.installed_size, 1024);
    assert_eq!(p.version, Version::parse("1.0.0").unwrap());
    assert_eq!(p.kind_id, 1);
    assert_eq!(p.repository_id, 1);
    assert_eq!(p.dependency_id, None);
    assert_eq!(report.into_package().name, "foo");
}

#[test]
fn optional_fields_are_kept() {
    let mut members = complete();
    members.push(("description", text("a tool")));
    members.push(("homepage", text("https://example.org")));
    members.push(("license", text("MIT")));
    let p = validate(&MetaDocument::from_json(&object(members)), &store()).unwrap().into_package();
    assert_eq!(p.description, "a tool");
    assert_eq!(p.homepage.as_deref(), Some("https://example.org"));
    assert_eq!(p.license.as_deref(), Some("MIT"));
}

#[test]
fn each_mandatory_field_is_required() {
    let store = store();
    assert_eq!(violations(&without("name"), &store), vec![Violation::MissingName]);
    assert_eq!(violations(&without("maintainer"), &store), vec![Violation::MissingMaintainer]);
    assert_eq!(violations(&without("installed_size"), &store), vec![Violation::MissingInstalledSize]);
    assert_eq!(violations(&without("version"), &store), vec![Violation::InvalidVersion]);
    assert_eq!(violations(&without("kind"), &store), vec![Violation::UnknownKind]);
    assert_eq!(violations(&without("repository"), &store), vec![Violation::UnknownRepository]);
}

#[test]
fn missing_maintainer_and_unknown_kind_are_both_reported() {
    let doc = MetaDocument::from_json(&object(vec![
        ("name", text("foo")),
        ("installed_size", JsonValue::Number(1024)),
        ("version", text("1.0.0")),
        ("kind", text("no-such-kind")),
        ("repository", text("main")),
    ]));
    assert_eq!(
        violations(&doc, &store()),
        vec![Violation::MissingMaintainer, Violation::UnknownKind]
    );
}

#[test]
fn every_violation_is_reported_in_order() {
    let mut store = MetadataStore::new();
    store.insert_kind("bin").unwrap();
    let doc = MetaDocument::from_json(&object(vec![
        ("installed_size", JsonValue::Number(-5)),
        ("version", text("one.two")),
        ("dependency", text("libfoo")),
    ]));
    assert_eq!(
        violations(&doc, &store),
        vec![
            Violation::MissingName,
            Violation::MissingMaintainer,
            Violation::NegativeInstalledSize,
            Violation::InvalidVersion,
            Violation::UnknownKind,
            Violation::UnknownRepository,
            Violation::UnknownDependency,
        ]
    );
    assert_eq!(
        violations(&MetaDocument::from_json(&JsonValue::Null), &store),
        vec![
            Violation::MissingName,
            Violation::MissingMaintainer,
            Violation::MissingInstalledSize,
            Violation::InvalidVersion,
            Violation::UnknownKind,
            Violation::UnknownRepository,
        ]
    );
}

#[test]
fn an_installed_size_of_zero_passes_and_a_negative_one_does_not() {
    let store = store();
    let mut members = complete();
    members[2] = ("installed_size", JsonValue::Number(0));
    assert!(validate(&MetaDocument::from_json(&object(members)), &store).is_ok());
    let mut members = complete();
    members[2] = ("installed_size", JsonValue::Number(-1));
    assert_eq!(
        violations(&MetaDocument::from_json(&object(members)), &store),
        vec![Violation::NegativeInstalledSize]
    );
}

#[test]
fn the_same_name_and_version_is_a_duplicate() {
    let mut store = store();
    let doc = MetaDocument::from_json(&object(complete()));
    let p = validate(&doc, &store).unwrap().into_package();
    store.insert_package(p).unwrap();
    assert_eq!(violations(&doc, &store), vec![Violation::DuplicateEntry]);
    let mut members = complete();
    members[3] = ("version", text("1.1.0"));
    assert!(validate(&MetaDocument::from_json(&object(members)), &store).is_ok());
    let mut members = complete();
    members[3] = ("version", text("01.0.0"));
    assert_eq!(
        violations(&MetaDocument::from_json(&object(members)), &store),
        vec![Violation::DuplicateEntry]
    );
}

#[test]
fn a_dependency_must_be_recorded() {
    let mut store = store();
    let mut members = complete();
    members.push(("dependency", text("libfoo")));
    let doc = MetaDocument::from_json(&object(members));
    assert_eq!(violations(&doc, &store), vec![Violation::UnknownDependency]);
    let mut lib = complete();
    lib[0] = ("name", text("libfoo"));
    let lib = validate(&MetaDocument::from_json(&object(lib)), &store).unwrap().into_package();
    assert_eq!(store.insert_package(lib), Ok(1));
    let p = validate(&doc, &store).unwrap().into_package();
    assert_eq!(p.dependency_id, Some(1));
    assert_eq!(store.insert_package(p), Ok(2));
}

#[test]
fn violations_have_names() {
    assert_eq!(Violation::MissingName.name(), "missing-name");
    assert_eq!(Violation::MissingMaintainer.name(), "missing-maintainer");
    assert_eq!(Violation::MissingInstalledSize.name(), "missing-installed-size");
    assert_eq!(Violation::NegativeInstalledSize.name(), "negative-installed-size");
    assert_eq!(Violation::InvalidVersion.name(), "invalid-version");
    assert_eq!(Violation::DuplicateEntry.name(), "duplicate-entry");
    assert_eq!(Violation::UnknownKind.name(), "unknown-kind");
    assert_eq!(Violation::UnknownRepository.name(), "unknown-repository");
    assert_eq!(Violation::UnknownDependency.name(), "unknown-dependency");
}
