//! The validation stage: what the metadata of an artifact must satisfy before
//! anything is installed.
//!
//! Every check is made and every violation is reported, in a fixed order. A
//! document without violations yields the package, with its references
//! resolved against the store, that the installation stage may record.

use crate::document::JsonValue;
use crate::package::{copy_text, Package, PackageView};
use crate::store::{
    latest_id, lemma_latest_position, next_package_id, package_check, recorded, MetadataStore,
    TablesView,
};
use crate::table::{id_of, lemma_id_of, number_of};
use crate::version::{parse_spec, valid, Version, VersionView};
use vstd::prelude::*;
use vstd::string::*;

verus! {

/// A check that a metadata document failed.
#[derive(Clone, Copy, Debug, PartialEq, Eq)]
pub enum Violation {
    /// The document has no text `name`.
    MissingName,
    /// The document has no text `maintainer`.
    MissingMaintainer,
    /// The document has no whole number `installed_size`.
    MissingInstalledSize,
    /// The installed size is negative.
    NegativeInstalledSize,
    /// The document has no text `version`, or the text is not a version.
    InvalidVersion,
    /// A package with this name and version is recorded already.
    DuplicateEntry,
    /// The document names no kind, or one that is not recorded.
    UnknownKind,
    /// The document names no repository, or one that is not recorded.
    UnknownRepository,
    /// The document names a dependency that is not recorded.
    UnknownDependency,
}

impl Violation {
    /// The name of the check.
    pub fn name(&self) -> (text: &'static str)
        ensures
            text@ == match *self {
                Violation::MissingName => "missing-name"@,
                Violation::MissingMaintainer => "missing-maintainer"@,
                Violation::MissingInstalledSize => "missing-installed-size"@,
                Violation::NegativeInstalledSize => "negative-installed-size"@,
                Violation::InvalidVersion => "invalid-version"@,
                Violation::DuplicateEntry => "duplicate-entry"@,
                Violation::UnknownKind => "unknown-kind"@,
                Violation::UnknownRepository => "unknown-repository"@,
                Violation::UnknownDependency => "unknown-dependency"@,
            },
    {
        match self {
            Violation::MissingName => "missing-name",
            Violation::MissingMaintainer => "missing-maintainer",
            Violation::MissingInstalledSize => "missing-installed-size",
            Violation::NegativeInstalledSize => "negative-installed-size",
            Violation::InvalidVersion => "invalid-version",
            Violation::DuplicateEntry => "duplicate-entry",
            Violation::UnknownKind => "unknown-kind",
            Violation::UnknownRepository => "unknown-repository",
            Violation::UnknownDependency => "unknown-dependency",
        }
    }
}

/// The fields of a metadata document, each as far as the document has it.
#[derive(Debug, PartialEq, Eq)]
pub struct MetaDocument {
    pub name: Option<String>,
    pub description: Option<String>,
    pub maintainer: Option<String>,
    pub homepage: Option<String>,
    pub license: Option<String>,
    pub installed_size: Option<i64>,
    pub version: Option<String>,
    /// The name of the package's kind.
    pub kind: Option<String>,
    /// The name of the repository that the package comes from.
    pub repository: Option<String>,
    /// The name of the package that this one depends on.
    pub dependency: Option<String>,
}

/// What a metadata document is.
pub struct MetaDocumentView {
    pub name: Option<Seq<char>>,
    pub description: Option<Seq<char>>,
    pub maintainer: Option<Seq<char>>,
    pub homepage: Option<Seq<char>>,
    pub license: Option<Seq<char>>,
    pub installed_size: Option<int>,
    pub version: Option<Seq<char>>,
    pub kind: Option<Seq<char>>,
    pub repository: Option<Seq<char>>,
    pub dependency: Option<Seq<char>>,
}

/// The text that an optional text stands for.
pub open spec fn opt_text(t: Option<String>) -> Option<Seq<char>> {
    match t {
        Some(s) => Some(s@),
        None => None,
    }
}

impl View for MetaDocument {
    type V = MetaDocumentView;

    open spec fn view(&self) -> MetaDocumentView {
        MetaDocumentView {
            name: opt_text(self.name),
            description: opt_text(self.description),
            maintainer: opt_text(self.maintainer),
            homepage: opt_text(self.homepage),
            license: opt_text(self.license),
            installed_size: number_of(self.installed_size),
            version: opt_text(self.version),
            kind: opt_text(self.kind),
            repository: opt_text(self.repository),
            dependency: opt_text(self.dependency),
        }
    }
}

/// The fields that the document `json` has. A member of the wrong type counts
/// as absent, and so does every member of a value that is no object.
pub open spec fn document_of(json: JsonValue) -> MetaDocumentView {
    MetaDocumentView {
        name: json.text_member_spec("name"@),
        description: json.text_member_spec("description"@),
        maintainer: json.text_member_spec("maintainer"@),
        homepage: json.text_member_spec("homepage"@),
        license: json.text_member_spec("license"@),
        installed_size: json.number_member_spec("installed_size"@),
        version: json.text_member_spec("version"@),
        kind: json.text_member_spec("kind"@),
        repository: json.text_member_spec("repository"@),
        dependency: json.text_member_spec("dependency"@),
    }
}

impl MetaDocument {
    /// Reads the fields of a metadata document.
    pub fn from_json(json: &JsonValue) -> (doc: MetaDocument)
        ensures
            doc@ == document_of(*json),
    {
        MetaDocument {
            name: json.text_member("name"),
            description: json.text_member("description"),
            maintainer: json.text_member("maintainer"),
            homepage: json.text_member("homepage"),
            license: json.text_member("license"),
            installed_size: json.number_member("installed_size"),
            version: json.text_member("version"),
            kind: json.text_member("kind"),
            repository: json.text_member("repository"),
            dependency: json.text_member("dependency"),
        }
    }
}

/// The violation `v` if `violated` holds, and nothing otherwise.
pub open spec fn when(violated: bool, v: Violation) -> Seq<Violation> {
    if violated {
        seq![v]
    } else {
        Seq::empty()
    }
}

/// The version that the document declares, if it declares one.
pub open spec fn version_of(doc: MetaDocumentView) -> Option<VersionView> {
    match doc.version {
        Some(text) => match parse_spec(text) {
            Ok(v) => Some(v),
            Err(_) => None,
        },
        None => None,
    }
}

/// The id of the kind that the document names.
pub open spec fn kind_of(doc: MetaDocumentView, t: TablesView) -> Option<int> {
    match doc.kind {
        Some(kind) => id_of(t.kinds, kind),
        None => None,
    }
}

/// The id of the repository that the document names.
pub open spec fn repository_of(doc: MetaDocumentView, t: TablesView) -> Option<int> {
    match doc.repository {
        Some(name) => id_of(t.repositories, name),
        None => None,
    }
}

/// The id of the package that the document names as its dependency.
pub open spec fn dependency_of(doc: MetaDocumentView, t: TablesView) -> Option<int> {
    match doc.dependency {
        Some(name) => latest_id(t.packages, name),
        None => None,
    }
}

/// A package with the name and version of the document is recorded.
pub open spec fn is_duplicate(doc: MetaDocumentView, t: TablesView) -> bool {
    doc.name matches Some(name) && version_of(doc) matches Some(version) && recorded(
        t.packages,
        name,
        version,
    )
}

/// What the document itself lacks.
pub open spec fn schema_violations(doc: MetaDocumentView) -> Seq<Violation> {
    when(doc.name is None, Violation::MissingName) + when(
        doc.maintainer is None,
        Violation::MissingMaintainer,
    ) + when(doc.installed_size is None, Violation::MissingInstalledSize) + when(
        doc.installed_size matches Some(n) && n < 0,
        Violation::NegativeInstalledSize,
    ) + when(version_of(doc) is None, Violation::InvalidVersion)
}

/// What the store holds against the document.
pub open spec fn store_violations(doc: MetaDocumentView, t: TablesView) -> Seq<Violation> {
    when(is_duplicate(doc, t), Violation::DuplicateEntry) + when(
        kind_of(doc, t) is None,
        Violation::UnknownKind,
    ) + when(repository_of(doc, t) is None, Violation::UnknownRepository) + when(
        doc.dependency is Some && dependency_of(doc, t) is None,
        Violation::UnknownDependency,
    )
}

/// Every violation of the document against the store: first what the
/// document lacks, then what the store holds against it.
pub open spec fn violations_of(doc: MetaDocumentView, t: TablesView) -> Seq<Violation> {
    schema_violations(doc) + store_violations(doc, t)
}

/// The text, or the empty text where there is none.
pub open spec fn text_or_empty(t: Option<Seq<char>>) -> Seq<char> {
    match t {
        Some(s) => s,
        None => Seq::empty(),
    }
}

/// The package that a document without violations describes.
pub open spec fn package_of(doc: MetaDocumentView, t: TablesView) -> PackageView {
    PackageView {
        name: doc.name.unwrap(),
        description: text_or_empty(doc.description),
        maintainer: doc.maintainer.unwrap(),
        homepage: doc.homepage,
        license: doc.license,
        installed_size: doc.installed_size.unwrap(),
        version: version_of(doc).unwrap(),
        kind_id: kind_of(doc, t).unwrap(),
        repository_id: repository_of(doc, t).unwrap(),
        dependency_id: dependency_of(doc, t),
    }
}

/// The violations that were found: at least one.
#[derive(Debug, PartialEq, Eq)]
pub struct ValidationError {
    pub violations: Vec<Violation>,
}

/// The outcome of a validation that found nothing: the package to record.
#[derive(Debug, PartialEq, Eq)]
pub struct ValidationReport {
    package: Package,
}

impl View for ValidationReport {
    type V = PackageView;

    closed spec fn view(&self) -> PackageView {
        self.package@
    }
}

impl ValidationReport {
    /// The package that may be recorded.
    pub fn package(&self) -> (p: &Package)
        ensures
            p@ == self@,
    {
        &self.package
    }

    /// Gives the package up.
    pub fn into_package(self) -> (p: Package)
        ensures
            p@ == self@,
    {
        self.package
    }
}

/// Adds `v` to `found` if `violated` holds.
fn note(found: &mut Vec<Violation>, violated: bool, v: Violation)
    ensures
        final(found)@ == old(found)@ + when(violated, v),
{
    if violated {
        found.push(v);
    }
    assert(found@ =~= old(found)@ + when(violated, v));
}

/// A document without violations has every field that a package needs, and
/// every reference that it makes points to a row of the store.
pub proof fn lemma_no_violations(doc: MetaDocumentView, t: TablesView)
    requires
        violations_of(doc, t).len() == 0,
    ensures
        doc.name is Some,
        doc.maintainer is Some,
        doc.installed_size matches Some(n) && n >= 0,
        version_of(doc) is Some,
        !is_duplicate(doc, t),
        kind_of(doc, t) is Some,
        repository_of(doc, t) is Some,
        doc.dependency is Some ==> dependency_of(doc, t) is Some,
{
    let s = schema_violations(doc);
    let d = store_violations(doc, t);
    assert(s.len() == 0 && d.len() == 0);
}

/// A document without violations describes a package that the store accepts,
/// as long as the store has an id left for it.
pub proof fn lemma_valid_is_recordable(doc: MetaDocumentView, t: TablesView, id: int)
    requires
        violations_of(doc, t).len() == 0,
        next_package_id(t.packages) <= id <= i64::MAX,
    ensures
        package_check(t, id, package_of(doc, t)) is None,
{
    lemma_no_violations(doc, t);
    lemma_id_of(t.kinds, doc.kind.unwrap());
    lemma_id_of(t.repositories, doc.repository.unwrap());
    if doc.dependency is Some {
        lemma_latest_position(t.packages, doc.dependency.unwrap());
    }
}

/// The version that the document declares, read.
fn read_version(doc: &MetaDocument) -> (version: Option<Version>)
    ensures
        match version {
            Some(v) => version_of(doc@) == Some(v@) && valid(v@),
            None => version_of(doc@) is None,
        },
{
    match &doc.version {
        Some(text) => match Version::parse(text.as_str()) {
            Ok(v) => Some(v),
            Err(_) => None,
        },
        None => None,
    }
}

/// Notes what the document itself lacks.
fn check_schema(doc: &MetaDocument, version: &Option<Version>, found: &mut Vec<Violation>)
    requires
        version is None <==> version_of(doc@) is None,
    ensures
        final(found)@ == old(found)@ + schema_violations(doc@),
{
    note(found, doc.name.is_none(), Violation::MissingName);
    note(found, doc.maintainer.is_none(), Violation::MissingMaintainer);
    note(found, doc.installed_size.is_none(), Violation::MissingInstalledSize);
    let negative = match doc.installed_size {
        Some(n) => n < 0,
        None => false,
    };
    note(found, negative, Violation::NegativeInstalledSize);
    note(found, version.is_none(), Violation::InvalidVersion);
    assert(found@ =~= old(found)@ + schema_violations(doc@));
}

/// The ids that the references of a document resolve to.
struct Resolved {
    kind_id: Option<i64>,
    repository_id: Option<i64>,
    dependency_id: Option<i64>,
}

/// Notes what the store holds against the document.
fn check_store(
    doc: &MetaDocument,
    version: &Option<Version>,
    store: &MetadataStore,
    found: &mut Vec<Violation>,
) -> (ids: Resolved)
    requires
        match *version {
            Some(v) => version_of(doc@) == Some(v@),
            None => version_of(doc@) is None,
        },
    ensures
        final(found)@ == old(found)@ + store_violations(doc@, store@.tables),
        number_of(ids.kind_id) == kind_of(doc@, store@.tables),
        number_of(ids.repository_id) == repository_of(doc@, store@.tables),
        number_of(ids.dependency_id) == dependency_of(doc@, store@.tables),
{
    let duplicate = match (&doc.name, version) {
        (Some(name), Some(v)) => store.has_package(name.as_str(), v),
        _ => false,
    };
    note(found, duplicate, Violation::DuplicateEntry);
    let kind_id: Option<i64> = match &doc.kind {
        Some(kind) => store.kind_id(kind.as_str()),
        None => None,
    };
    note(found, kind_id.is_none(), Violation::UnknownKind);
    let repository_id: Option<i64> = match &doc.repository {
        Some(name) => store.repository_id(name.as_str()),
        None => None,
    };
    note(found, repository_id.is_none(), Violation::UnknownRepository);
    let dependency_id: Option<i64> = match &doc.dependency {
        Some(name) => store.package_id(name.as_str()),
        None => None,
    };
    note(found, doc.dependency.is_some() && dependency_id.is_none(), Violation::UnknownDependency);
    assert(found@ =~= old(found)@ + store_violations(doc@, store@.tables));
    Resolved { kind_id, repository_id, dependency_id }
}

/// Checks a metadata document against the store.
///
/// Succeeds exactly when the document has no violation, and then gives the
/// package that it describes. Otherwise gives every violation, in the order
/// of [`violations_of`].
pub fn validate(doc: &MetaDocument, store: &MetadataStore) -> (r: Result<
    ValidationReport,
    ValidationError,
>)
    ensures
        match r {
            Ok(report) => {
                &&& violations_of(doc@, store@.tables).len() == 0
                &&& report@ == package_of(doc@, store@.tables)
                &&& valid(report@.version)
            },
            Err(e) => e.violations@ == violations_of(doc@, store@.tables) && e.violations@.len() > 0,
        },
{
    let ghost t = store@.tables;
    let mut found: Vec<Violation> = Vec::new();
    let version = read_version(doc);
    check_schema(doc, &version, &mut found);
    let ids = check_store(doc, &version, store, &mut found);
    assert(found@ =~= violations_of(doc@, t));
    if found.len() > 0 {
        return Err(ValidationError { violations: found });
    }
    proof {
        lemma_no_violations(doc@, t);
    }
    match (&doc.name, &doc.maintainer, doc.installed_size, version, ids.kind_id, ids.repository_id) {
        (Some(name), Some(maintainer), Some(installed_size), Some(version), Some(kind_id), Some(
            repository_id,
        )) => {
            let description = match &doc.description {
                Some(text) => text.clone(),
                None => String::new(),
            };
            let package = Package {
                name: name.clone(),
                description,
                maintainer: maintainer.clone(),
                homepage: copy_text(&doc.homepage),
                license: copy_text(&doc.license),
                installed_size,
                version,
                kind_id,
                repository_id,
                dependency_id: ids.dependency_id,
            };
            assert(package@ =~= package_of(doc@, t));
            Ok(ValidationReport { package })
        },
        // Every field is there: a document that lacks one has a violation.
        _ => unreached(),
    }
}

} // verus!
