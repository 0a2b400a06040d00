use lpm::document::JsonValue;
use lpm::install::{check_layout, ExtractedLayout, LodPkg, StageOutcomes};
use lpm::package::SqlValue;
use lpm::pipeline::{
    AbortReason, ExtractionError, InstallError, Pipeline, PipelineAction, PipelineState, StageEvent,
};
use lpm::staging::{InvalidArtifactName, StagingArea};
use lpm::store::{MetadataStore, StoreError};
use lpm::validation::{ValidationError, Violation};
use lpm::version::Version;

fn text(s: &str) -> JsonValue {
    JsonValue::Text(s.to_string())
}

fn metadata(name: &str, version: &str) -> JsonValue {
    JsonValue::Object(vec![
        ("name".to_string(), text(name)),
        ("maintainer".to_string(), text("someone")),
        ("installed_size".to_string(), JsonValue::Number(1024)),
        ("version".to_string(), text(version)),
        ("kind".to_string(), text("bin")),
        ("repository".to_string(), text("main")),
    ])
}

fn entries(names: &[&str]) -> Vec<String> {
    names.iter().map(|n| n.to_string()).collect()
}

fn good(name: &str, version: &str) -> StageOutcomes {
    StageOutcomes { unpacked: Ok(entries(&["meta", "program"])), metadata: metadata(name, version), copied: true }
}

fn store() -> MetadataStore {
    let mut store = MetadataStore::new();
    store.insert_kind("bin").unwrap();
    store.insert_repository("main").unwrap();
    store
}

fn pkg(path: &str) -> LodPkg {
    LodPkg::from_fs(path, &StagingArea::new("/var/tmp/lpm")).unwrap()
}

/// Drives a pipeline with the events of `script`, one for each action, and
/// gives the actions in the order in which they were due.
fn drive(script: Vec<StageEvent>) -> (Vec<PipelineAction>, Pipeline) {
    let mut p = Pipeline::new();
    let mut actions = Vec::new();
    for event in script {
        actions.push(p.action());
        p = p.handle(event);
    }
    actions.push(p.action());
    (actions, p)
}

#[test]
fn the_success_path_goes_through_every_state() {
    let mut p = Pipeline::new();
    assert_eq!(p.state(), &PipelineState::Created);
    assert_eq!(p.action(), PipelineAction::Extract);
    p = p.handle(StageEvent::Extracted(Ok(())));
    assert_eq!(p.state(), &PipelineState::Extracted);
    assert_eq!(p.action(), PipelineAction::Validate);
    p = p.handle(StageEvent::Validated(Ok(())));
    assert_eq!(p.state(), &PipelineState::Validated);
    assert_eq!(p.action(), PipelineAction::CopyProgram);
    p = p.handle(StageEvent::Copied(true));
    assert_eq!(p.state(), &PipelineState::Validated);
    assert!(!p.is_installed());
    assert_eq!(p.action(), PipelineAction::RecordPackage);
    p = p.handle(StageEvent::Recorded(Ok(())));
    assert_eq!(p.state(), &PipelineState::Installed);
    assert!(p.is_installed());
    assert!(!p.is_finished());
    assert_eq!(p.action(), PipelineAction::Cleanup);
    p = p.handle(StageEvent::CleanedUp);
    assert_eq!(p.state(), &PipelineState::CleanedUp);
    assert_eq!(p.action(), PipelineAction::Finish);
    assert!(p.is_finished());
    assert!(p.is_installed());
}

#[test]
fn a_missing_subtree_aborts_and_still_cleans_up() {
    let (actions, p) = drive(vec![
        StageEvent::Extracted(Err(ExtractionError::MissingSubtree)),
        StageEvent::CleanedUp,
    ]);
    assert_eq!(actions, vec![PipelineAction::Extract, PipelineAction::Cleanup, PipelineAction::Finish]);
    assert_eq!(
        p.state(),
        &PipelineState::Aborted(AbortReason::Extraction(ExtractionError::MissingSubtree))
    );
    assert!(p.is_finished());
    assert!(!p.is_installed());
}

#[test]
fn a_failed_validation_aborts_before_any_copy() {
    let error = ValidationError { violations: vec![Violation::MissingName] };
    let (actions, p) = drive(vec![
        StageEvent::Extracted(Ok(())),
        StageEvent::Validated(Err(ValidationError { violations: vec![Violation::MissingName] })),
        StageEvent::CleanedUp,
    ]);
    assert_eq!(
        actions,
        vec![
            PipelineAction::Extract,
            PipelineAction::Validate,
            PipelineAction::Cleanup,
            PipelineAction::Finish,
        ]
    );
    assert_eq!(p.state(), &PipelineState::Aborted(AbortReason::Validation(error)));
}

#[test]
fn a_failed_copy_aborts_before_the_record() {
    let (actions, p) = drive(vec![
        StageEvent::Extracted(Ok(())),
        StageEvent::Validated(Ok(())),
        StageEvent::Copied(false),
        StageEvent::CleanedUp,
    ]);
    assert_eq!(
        actions,
        vec![
            PipelineAction::Extract,
            PipelineAction::Validate,
            PipelineAction::CopyProgram,
            PipelineAction::Cleanup,
            PipelineAction::Finish,
        ]
    );
    assert_eq!(p.state(), &PipelineState::Aborted(AbortReason::Install(InstallError::Io)));
}

#[test]
fn a_failed_record_aborts_and_is_not_installed() {
    let (actions, p) = drive(vec![
        StageEvent::Extracted(Ok(())),
        StageEvent::Validated(Ok(())),
        StageEvent::Copied(true),
        StageEvent::Recorded(Err(StoreError::Execute)),
        StageEvent::CleanedUp,
    ]);
    assert_eq!(actions[3], PipelineAction::RecordPackage);
    assert_eq!(actions[4], PipelineAction::Cleanup);
    assert_eq!(actions[5], PipelineAction::Finish);
    assert_eq!(
        p.state(),
        &PipelineState::Aborted(AbortReason::Install(InstallError::Metadata(StoreError::Execute)))
    );
    assert!(!p.is_installed());
}

#[test]
fn an_event_out_of_turn_changes_nothing() {
    let p = Pipeline::new().handle(StageEvent::Copied(true));
    assert_eq!(p, Pipeline::new());
    let p = p.handle(StageEvent::CleanedUp).handle(StageEvent::Recorded(Ok(())));
    assert_eq!(p.action(), PipelineAction::Extract);
    let p = p.handle(StageEvent::Extracted(Ok(()))).handle(StageEvent::Extracted(Err(ExtractionError::Io)));
    assert_eq!(p.state(), &PipelineState::Extracted);
}

#[test]
fn a_finished_pipeline_stays_as_it_is() {
    let (_, p) = drive(vec![StageEvent::Extracted(Err(ExtractionError::Io)), StageEvent::CleanedUp]);
    let p = p.handle(StageEvent::Extracted(Ok(()))).handle(StageEvent::CleanedUp);
    assert_eq!(p.state(), &PipelineState::Aborted(AbortReason::Extraction(ExtractionError::Io)));
    assert!(p.is_finished());
}

#[test]
fn layout_needs_both_subtrees_and_nothing_else() {
    assert_eq!(check_layout(&entries(&["meta", "program"])), Ok(()));
    assert_eq!(check_layout(&entries(&["program", "meta"])), Ok(()));
    assert_eq!(check_layout(&entries(&["meta"])), Err(ExtractionError::MissingSubtree));
    assert_eq!(check_layout(&entries(&["program"])), Err(ExtractionError::MissingSubtree));
    assert_eq!(check_layout(&entries(&[])), Err(ExtractionError::MissingSubtree));
    assert_eq!(check_layout(&entries(&["meta", "extra"])), Err(ExtractionError::MissingSubtree));
    assert_eq!(check_layout(&entries(&["meta", "program", "extra"])), Err(ExtractionError::Malformed));
    assert_eq!(check_layout(&entries(&["Meta", "program", "meta"])), Err(ExtractionError::Malformed));
}

#[test]
fn a_layout_is_confirmed_for_its_location() {
    let location = StagingArea::new("/stage").locate("foo-1.0.0").unwrap();
    let layout = ExtractedLayout::confirm(location.clone(), &entries(&["meta", "program"])).unwrap();
    assert_eq!(layout.location(), &location);
    assert_eq!(
        ExtractedLayout::confirm(location, &entries(&["meta"])),
        Err(ExtractionError::MissingSubtree)
    );
}

#[test]
fn from_fs_stages_by_the_stem() {
    let p = pkg("/downloads/foo-1.0.0.pkg");
    assert_eq!(p.path(), "/downloads/foo-1.0.0.pkg");
    assert_eq!(p.location().dir(), "/var/tmp/lpm/foo-1.0.0");
    assert_eq!(
        LodPkg::from_fs("/downloads/", &StagingArea::new("/var/tmp/lpm")),
        Err(InvalidArtifactName)
    );
}

#[test]
fn install_program_copies_the_program_subtree_to_the_root() {
    let plan = pkg("foo-1.0.0.pkg").install_program("/");
    assert_eq!(plan, ("/var/tmp/lpm/foo-1.0.0/program/".to_string(), "/".to_string()));
}

#[test]
fn installing_foo_records_it_and_cleans_up() {
    let mut store = store();
    let p = pkg("foo-1.0.0.pkg").start_installation(good("foo", "1.0.0"), &mut store);
    assert_eq!(p.state(), &PipelineState::CleanedUp);
    assert!(p.is_finished());
    assert_eq!(store.packages().len(), 1);
    let row = store.package("foo", &Version::parse("1.0.0").unwrap()).unwrap();
    assert_eq!(row.id, 1);
    assert_eq!(row.package.name, "foo");
    assert_eq!(row.package.installed_size, 1024);
    assert_eq!(row.package.license, None);
    assert_eq!((row.package.version.major(), row.package.version.minor(), row.package.version.patch()), (1, 0, 0));
    let values = row.package.row();
    assert_eq!(values[0], SqlValue::Text("foo".to_string()));
    assert_eq!(values[7], SqlValue::Integer(1024));
    assert_eq!(values[8], SqlValue::Null);
    assert_eq!(values[9], SqlValue::Integer(1));
    assert_eq!(values[10], SqlValue::Integer(0));
    assert_eq!(values[11], SqlValue::Integer(0));
    assert!(!store.in_transaction());
}

#[test]
fn an_artifact_without_program_aborts_and_leaves_the_store_alone() {
    let mut store = store();
    let outcomes = StageOutcomes { unpacked: Ok(entries(&["meta"])), metadata: metadata("foo", "1.0.0"), copied: true };
    let p = pkg("foo-1.0.0.pkg").start_installation(outcomes, &mut store);
    assert_eq!(
        p.state(),
        &PipelineState::Aborted(AbortReason::Extraction(ExtractionError::MissingSubtree))
    );
    assert!(p.is_finished());
    assert!(store.packages().is_empty());
}

#[test]
fn an_artifact_that_cannot_be_unpacked_aborts() {
    let mut store = store();
    let outcomes = StageOutcomes { unpacked: Err(ExtractionError::Malformed), metadata: JsonValue::Null, copied: false };
    let p = pkg("foo-1.0.0.pkg").start_installation(outcomes, &mut store);
    assert_eq!(p.state(), &PipelineState::Aborted(AbortReason::Extraction(ExtractionError::Malformed)));
    assert!(p.is_finished());
}

#[test]
fn violations_abort_with_all_of_them() {
    let mut store = store();
    let doc = JsonValue::Object(vec![
        ("name".to_string(), text("foo")),
        ("installed_size".to_string(), JsonValue::Number(1024)),
        ("version".to_string(), text("1.0.0")),
        ("kind".to_string(), text("nothing")),
        ("repository".to_string(), text("main")),
    ]);
    let outcomes = StageOutcomes { unpacked: Ok(entries(&["meta", "program"])), metadata: doc, copied: true };
    let p = pkg("foo-1.0.0.pkg").start_installation(outcomes, &mut store);
    assert_eq!(
        p.state(),
        &PipelineState::Aborted(AbortReason::Validation(ValidationError {
            violations: vec![Violation::MissingMaintainer, Violation::UnknownKind],
        }))
    );
    assert!(store.packages().is_empty());
}

#[test]
fn a_failed_copy_records_nothing() {
    let mut store = store();
    let mut outcomes = good("foo", "1.0.0");
    outcomes.copied = false;
    let p = pkg("foo-1.0.0.pkg").start_installation(outcomes, &mut store);
    assert_eq!(p.state(), &PipelineState::Aborted(AbortReason::Install(InstallError::Io)));
    assert!(store.packages().is_empty());
}

#[test]
fn an_open_transaction_keeps_the_package_out() {
    let mut store = store();
    store.begin().unwrap();
    let p = pkg("foo-1.0.0.pkg").start_installation(good("foo", "1.0.0"), &mut store);
    assert_eq!(
        p.state(),
        &PipelineState::Aborted(AbortReason::Install(InstallError::Metadata(StoreError::Transaction)))
    );
    assert!(store.packages().is_empty());
    assert!(store.in_transaction());
}

#[test]
fn installing_the_same_version_twice_is_refused() {
    let mut store = store();
    let first = pkg("foo-1.0.0.pkg").start_installation(good("foo", "1.0.0"), &mut store);
    assert_eq!(first.state(), &PipelineState::CleanedUp);
    let second = pkg("foo-1.0.0.pkg").start_installation(good("foo", "1.0.0"), &mut store);
    assert_eq!(
        second.state(),
        &PipelineState::Aborted(AbortReason::Validation(ValidationError {
            violations: vec![Violation::DuplicateEntry],
        }))
    );
    assert_eq!(store.packages().len(), 1);
    let third = pkg("foo-1.1.0.pkg").start_installation(good("foo", "1.1.0"), &mut store);
    assert_eq!(third.state(), &PipelineState::CleanedUp);
    assert_eq!(store.packages().len(), 2);
    assert_eq!(store.packages()[0].id, 1);
    assert_eq!(store.packages()[1].id, 2);
    assert_eq!(store.packages()[0].package.version.render(), "1.0.0");
    assert_eq!(store.packages()[1].package.version.render(), "1.1.0");
}

#[test]
fn the_state_can_be_taken_out() {
    let (_, p) = drive(vec![StageEvent::Extracted(Err(ExtractionError::Malformed)), StageEvent::CleanedUp]);
    assert_eq!(
        p.into_state(),
        PipelineState::Aborted(AbortReason::Extraction(ExtractionError::Malformed))
    );
    assert_eq!(Pipeline::new().into_state(), PipelineState::Created);
}
