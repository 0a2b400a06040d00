//! Installing a package: from the unpacked artifact to the record in the store.

use crate::document::JsonValue;
use crate::kinds::names_view;
use crate::package::{Package, PackageView};
use crate::pipeline::{
    AbortReason, ExtractionError, InstallError, Pipeline, PipelineState, StageEvent,
};
use crate::staging::{
    program_dir_spec, staging_key_spec, InvalidArtifactName, StagingArea, StagingLocation,
    StagingLocationView,
};
use crate::store::{
    next_package_id, package_check, with_package, MetadataStore, StoreError, StoreView,
};
use crate::validation::{document_of, package_of, validate, violations_of, MetaDocument};
use vstd::prelude::*;
use vstd::string::*;

verus! {

/// What is wrong with the entries of an unpacked artifact, if anything is:
/// the subtree `meta` or the subtree `program` is absent, or there is an
/// entry that is neither.
pub open spec fn layout_check(entries: Seq<Seq<char>>) -> Option<ExtractionError> {
    if !entries.contains("meta"@) || !entries.contains("program"@) {
        Some(ExtractionError::MissingSubtree)
    } else if exists|i: int|
        0 <= i < entries.len() && #[trigger] entries[i] != "meta"@ && entries[i] != "program"@ {
        Some(ExtractionError::Malformed)
    } else {
        None
    }
}

/// Checks the top-level entries of an unpacked artifact.
pub fn check_layout(entries: &Vec<String>) -> (r: Result<(), ExtractionError>)
    ensures
        match r {
            Ok(_) => layout_check(names_view(entries@)) is None,
            Err(e) => layout_check(names_view(entries@)) == Some(e),
        },
{
    let meta = String::from_str("meta");
    let program = String::from_str("program");
    let ghost names = names_view(entries@);
    let mut has_meta = false;
    let mut has_program = false;
    let mut has_other = false;
    let mut i: usize = 0;
    while i < entries.len()
        invariant
            i <= entries.len(),
            names == names_view(entries@),
            meta@ == "meta"@,
            program@ == "program"@,
            has_meta == names.take(i as int).contains("meta"@),
            has_program == names.take(i as int).contains("program"@),
            has_other == exists|j: int|
                0 <= j < i && #[trigger] names[j] != "meta"@ && names[j] != "program"@,
        decreases entries.len() - i,
    {
        let ghost done = names.take(i as int);
        let ghost next = names.take(i + 1);
        assert(next =~= done.push(names[i as int]));
        assert(names[i as int] == entries@[i as int]@);
        proof {
            reveal_strlit("meta");
            reveal_strlit("program");
            assert forall|x: Seq<char>| next.contains(x) <==> done.contains(x) || x == names[i as int] by {
                if done.contains(x) {
                    let k = choose|k: int| 0 <= k < done.len() && done[k] == x;
                    assert(next[k] == x);
                }
                if x == names[i as int] {
                    assert(next[i as int] == x);
                }
            }
        }
        if entries[i] == meta {
            has_meta = true;
        } else if entries[i] == program {
            has_program = true;
        } else {
            has_other = true;
        }
        i = i + 1;
    }
    assert(names.take(i as int) =~= names);
    if !has_meta || !has_program {
        Err(ExtractionError::MissingSubtree)
    } else if has_other {
        Err(ExtractionError::Malformed)
    } else {
        Ok(())
    }
}

/// An unpacked artifact: a staging location that holds the metadata subtree
/// and the program subtree, and nothing else.
#[derive(Debug, PartialEq, Eq)]
pub struct ExtractedLayout {
    location: StagingLocation,
}

impl View for ExtractedLayout {
    type V = StagingLocationView;

    closed spec fn view(&self) -> StagingLocationView {
        self.location@
    }
}

impl ExtractedLayout {
    /// Confirms that the location holds an unpacked artifact, given the
    /// top-level entries that were found in it.
    pub fn confirm(location: StagingLocation, entries: &Vec<String>) -> (r: Result<
        ExtractedLayout,
        ExtractionError,
    >)
        ensures
            match r {
                Ok(layout) => layout_check(names_view(entries@)) is None && layout@ == location@,
                Err(e) => layout_check(names_view(entries@)) == Some(e),
            },
    {
        match check_layout(entries) {
            Ok(_) => Ok(ExtractedLayout { location }),
            Err(e) => Err(e),
        }
    }

    /// The staging location.
    pub fn location(&self) -> (location: &StagingLocation)
        ensures
            location@ == self@,
    {
        &self.location
    }
}

/// Recording a package in the metadata store.
pub trait LodPkgCoreDbOps {
    /// Records the package in one transaction of its own, and gives the id of
    /// its row.
    fn insert(&self, db: &mut MetadataStore) -> (r: Result<i64, StoreError>);
}

/// How recording the package `p` in the store `start` ends: it fails if a
/// transaction is open already, or with what the store holds against the
/// package.
pub open spec fn insert_result(start: StoreView, p: PackageView) -> Result<int, StoreError> {
    let id = next_package_id(start.tables.packages);
    if start.saved is Some {
        Err(StoreError::Transaction)
    } else {
        match package_check(start.tables, id, p) {
            Some(e) => Err(e),
            None => Ok(id),
        }
    }
}

/// The store after the package `p` was recorded in the store `start`, or
/// `start` if it could not be.
pub open spec fn store_with(start: StoreView, p: PackageView) -> StoreView {
    match insert_result(start, p) {
        Ok(id) => StoreView { tables: with_package(start.tables, id, p), saved: None },
        Err(_) => start,
    }
}

impl LodPkgCoreDbOps for Package {
    fn insert(&self, db: &mut MetadataStore) -> (r: Result<i64, StoreError>)
        ensures
            match r {
                Ok(id) => insert_result(old(db)@, self@) == Ok::<int, StoreError>(id as int),
                Err(e) => insert_result(old(db)@, self@) == Err::<int, StoreError>(e),
            },
            final(db)@ == store_with(old(db)@, self@),
    {
        match db.begin() {
            Ok(_) => {},
            Err(e) => {
                return Err(e);
            },
        }
        match db.insert_package(self.clone()) {
            Ok(id) => match db.commit() {
                Ok(_) => Ok(id),
                Err(e) => {
                    let _ = db.rollback();
                    Err(e)
                },
            },
            Err(e) => {
                let _ = db.rollback();
                Err(e)
            },
        }
    }
}

/// What the driver found when it carried out the stages of an installation
/// that work outside the library.
#[derive(Debug, PartialEq, Eq)]
pub struct StageOutcomes {
    /// The top-level entries of the staging location after unpacking, or why
    /// the artifact could not be unpacked.
    pub unpacked: Result<Vec<String>, ExtractionError>,
    /// The metadata document of the artifact.
    pub metadata: JsonValue,
    /// Whether every file of the program subtree could be copied.
    pub copied: bool,
}

/// Why the extraction stage fails on these outcomes, if it does.
pub open spec fn extraction_failure(outcomes: StageOutcomes) -> Option<ExtractionError> {
    match outcomes.unpacked {
        Ok(entries) => layout_check(names_view(entries@)),
        Err(e) => Some(e),
    }
}

/// Every stage goes well on these outcomes and this store.
pub open spec fn installs(outcomes: StageOutcomes, store: StoreView) -> bool {
    &&& extraction_failure(outcomes) is None
    &&& violations_of(document_of(outcomes.metadata), store.tables).len() == 0
    &&& outcomes.copied
    &&& insert_result(store, package_of(document_of(outcomes.metadata), store.tables)) is Ok
}

/// A package on its way from an artifact into the system.
#[derive(Debug, PartialEq, Eq)]
pub struct LodPkg {
    path: String,
    location: StagingLocation,
}

impl LodPkg {
    /// The package of the artifact at `path`, to be staged in `area`.
    pub fn from_fs(path: &str, area: &StagingArea) -> (r: Result<LodPkg, InvalidArtifactName>)
        ensures
            match r {
                Ok(pkg) => staging_key_spec(path@) == Some(pkg.location_view().key)
                    && pkg.location_view().root == area@ && pkg.path_view() == path@,
                Err(_) => staging_key_spec(path@) is None,
            },
    {
        match area.locate_artifact(path) {
            Ok(location) => Ok(LodPkg { path: String::from_str(path), location }),
            Err(e) => Err(e),
        }
    }

    /// The path of the artifact.
    pub closed spec fn path_view(&self) -> Seq<char> {
        self.path@
    }

    /// Where the artifact is staged.
    pub closed spec fn location_view(&self) -> StagingLocationView {
        self.location@
    }

    /// The path of the artifact.
    pub fn path(&self) -> (path: &str)
        ensures
            path@ == self.path_view(),
    {
        self.path.as_str()
    }

    /// Where the artifact is staged.
    pub fn location(&self) -> (location: &StagingLocation)
        ensures
            location@ == self.location_view(),
    {
        &self.location
    }

    /// What installing the program means: the directory to copy from, which is
    /// the program subtree of the staging location, and the directory to copy to.
    pub fn install_program(&self, install_root: &str) -> (plan: (String, String))
        ensures
            plan.0@ == program_dir_spec(self.location_view().root, self.location_view().key),
            plan.1@ == install_root@,
    {
        (self.location.program_dir(), String::from_str(install_root))
    }

    /// Runs the installation on the outcomes of the outside stages: checks the
    /// layout, validates the metadata against `store`, records the package,
    /// and cleans up.
    ///
    /// The installation ends cleaned up and the package is recorded exactly
    /// when every stage goes well. Otherwise it ends aborted, with the reason
    /// of the first stage that failed, and the store is as it was.
    pub fn start_installation(&self, outcomes: StageOutcomes, store: &mut MetadataStore) -> (p:
        Pipeline)
        ensures
            p@.cleaned,
            p@.copied == (extraction_failure(outcomes) is None && violations_of(
                document_of(outcomes.metadata),
                old(store)@.tables,
            ).len() == 0 && outcomes.copied),
            installs(outcomes, old(store)@) <==> p@.state is CleanedUp,
            p@.state is CleanedUp || p@.state is Aborted,
            p@.state is CleanedUp ==> final(store)@ == store_with(
                old(store)@,
                package_of(document_of(outcomes.metadata), old(store)@.tables),
            ),
            p@.state is Aborted ==> final(store)@ == old(store)@,
            p@.state matches PipelineState::Aborted(reason) ==> match reason {
                AbortReason::Extraction(e) => extraction_failure(outcomes) == Some(e),
                AbortReason::Validation(e) => extraction_failure(outcomes) is None
                    && e.violations@ == violations_of(
                    document_of(outcomes.metadata),
                    old(store)@.tables,
                ) && e.violations@.len() > 0,
                AbortReason::Install(InstallError::Io) => extraction_failure(outcomes) is None
                    && violations_of(document_of(outcomes.metadata), old(store)@.tables).len() == 0
                    && !outcomes.copied,
                AbortReason::Install(InstallError::Metadata(e)) => extraction_failure(outcomes)
                    is None && violations_of(
                    document_of(outcomes.metadata),
                    old(store)@.tables,
                ).len() == 0 && outcomes.copied && insert_result(
                    old(store)@,
                    package_of(document_of(outcomes.metadata), old(store)@.tables),
                ) == Err::<int, StoreError>(e),
            },
    {
        let extraction = match &outcomes.unpacked {
            Ok(entries) => check_layout(entries),
            Err(e) => Err(*e),
        };
        let extracted = extraction.is_ok();
        let mut p = Pipeline::new().handle(StageEvent::Extracted(extraction));
        if extracted {
            let doc = MetaDocument::from_json(&outcomes.metadata);
            match validate(&doc, store) {
                Ok(report) => {
                    p = p.handle(StageEvent::Validated(Ok(())));
                    p = p.handle(StageEvent::Copied(outcomes.copied));
                    if outcomes.copied {
                        let recorded = match report.package().insert(store) {
                            Ok(_) => Ok(()),
                            Err(e) => Err(e),
                        };
                        p = p.handle(StageEvent::Recorded(recorded));
                    }
                },
                Err(e) => {
                    p = p.handle(StageEvent::Validated(Err(e)));
                },
            }
        }
        p.handle(StageEvent::CleanedUp)
    }
}

} // verus!
