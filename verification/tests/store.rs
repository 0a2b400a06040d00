use lpm::batch::{Batch, BatchAction, Phase, BEGIN_TRANSACTION, COMMIT, ROLLBACK};
use lpm::install::LodPkgCoreDbOps;
use lpm::kinds::{delete_pkg_kinds, insert_pkg_kinds, run_kind_batch, KindOperation, DELETE_KIND, INSERT_KIND};
use lpm::package::{Package, SqlValue, INSERT_PACKAGE, PACKAGE_COLUMNS};
use lpm::store::{MetadataStore, StoreError};
use lpm::version::Version;

fn names(kinds: &[&str]) -> Vec<String> {
    kinds.iter().map(|k| k.to_string()).collect()
}

fn kind_names(store: &MetadataStore) -> Vec<String> {
    store.kinds().iter().map(|row| row.name.clone()).collect()
}

fn package(name: &str, version: &str, kind_id: i64, repository_id: i64) -> Package {
    Package {
        name: name.to_string(),
        description: String::new(),
        maintainer: "someone".to_string(),
        homepage: None,
        license: None,
        installed_size: 1024,
        version: Version::parse(version).unwrap(),
        kind_id,
        repository_id,
        dependency_id: None,
    }
}

fn store_with_kind_and_repository() -> MetadataStore {
    let mut store = MetadataStore::new();
    assert_eq!(store.insert_kind("bin"), Ok(1));
    assert_eq!(store.insert_repository("main"), Ok(1));
    store
}

#[test]
fn new_store_is_empty() {
    let store = MetadataStore::new();
    assert!(store.kinds().is_empty());
    assert!(store.repositories().is_empty());
    assert!(store.packages().is_empty());
    assert!(!store.in_transaction());
    assert_eq!(store.next_package_id(), Some(1));
}

#[test]
fn kinds_get_increasing_ids() {
    let mut store = MetadataStore::new();
    assert_eq!(store.insert_kind("lib"), Ok(1));
    assert_eq!(store.insert_kind("bin"), Ok(2));
    assert_eq!(store.kind_id("lib"), Some(1));
    assert_eq!(store.kind_id("bin"), Some(2));
    assert_eq!(store.kind_id("doc"), None);
    assert_eq!(store.delete_kind("lib"), Ok(true));
    assert_eq!(store.insert_kind("doc"), Ok(3));
    assert_eq!(kind_names(&store), names(&["bin", "doc"]));
}

#[test]
fn kinds_are_unique_and_not_empty() {
    let mut store = MetadataStore::new();
    assert_eq!(store.insert_kind(""), Err(StoreError::EmptyName));
    assert_eq!(store.insert_kind("lib"), Ok(1));
    assert_eq!(store.insert_kind("lib"), Err(StoreError::DuplicateName));
    assert_eq!(kind_names(&store), names(&["lib"]));
}

#[test]
fn restore_takes_rows_in_the_order_of_their_ids() {
    let mut store = MetadataStore::new();
    assert_eq!(store.restore_kind(3, "lib"), Ok(()));
    assert_eq!(store.restore_kind(7, "bin"), Ok(()));
    assert_eq!(store.restore_kind(7, "doc"), Err(StoreError::Id));
    assert_eq!(store.restore_kind(5, "doc"), Err(StoreError::Id));
    assert_eq!(store.restore_kind(8, "lib"), Err(StoreError::DuplicateName));
    assert_eq!(store.restore_kind(0, ""), Err(StoreError::EmptyName));
    assert_eq!(store.kind_id("bin"), Some(7));
    assert_eq!(store.insert_kind("doc"), Ok(8));
    assert_eq!(store.restore_repository(2, "main"), Ok(()));
    assert_eq!(store.repository_id("main"), Some(2));
    assert_eq!(store.restore_package(4, package("foo", "1.0.0", 7, 2)), Ok(()));
    assert_eq!(store.restore_package(4, package("bar", "1.0.0", 7, 2)), Err(StoreError::Id));
    assert_eq!(store.insert_package(package("bar", "1.0.0", 7, 2)), Ok(5));
}

#[test]
fn ids_run_out_at_the_greatest() {
    let mut store = MetadataStore::new();
    assert_eq!(store.restore_kind(i64::MAX, "last"), Ok(()));
    assert_eq!(store.insert_kind("more"), Err(StoreError::Id));
    assert_eq!(store.insert_kind("last"), Err(StoreError::DuplicateName));
    assert_eq!(store.insert_kind(""), Err(StoreError::EmptyName));
}

#[test]
fn transactions_roll_back() {
    let mut store = MetadataStore::new();
    store.insert_kind("lib").unwrap();
    assert_eq!(store.begin(), Ok(()));
    assert!(store.in_transaction());
    assert_eq!(store.begin(), Err(StoreError::Transaction));
    store.insert_kind("bin").unwrap();
    store.delete_kind("lib").unwrap();
    assert_eq!(kind_names(&store), names(&["bin"]));
    assert_eq!(store.rollback(), Ok(()));
    assert!(!store.in_transaction());
    assert_eq!(kind_names(&store), names(&["lib"]));
    assert_eq!(store.rollback(), Err(StoreError::Transaction));
    assert_eq!(store.commit(), Err(StoreError::Transaction));
}

#[test]
fn transactions_commit() {
    let mut store = MetadataStore::new();
    assert_eq!(store.begin(), Ok(()));
    store.insert_kind("bin").unwrap();
    assert_eq!(store.commit(), Ok(()));
    assert!(!store.in_transaction());
    assert_eq!(kind_names(&store), names(&["bin"]));
}

#[test]
fn packages_need_their_references() {
    let mut store = store_with_kind_and_repository();
    assert_eq!(store.insert_package(package("foo", "1.0.0", 2, 1)), Err(StoreError::UnknownKind));
    assert_eq!(store.insert_package(package("foo", "1.0.0", 1, 2)), Err(StoreError::UnknownRepository));
    let mut dependent = package("foo", "1.0.0", 1, 1);
    dependent.dependency_id = Some(9);
    assert_eq!(store.insert_package(dependent), Err(StoreError::UnknownDependency));
    let mut negative = package("foo", "1.0.0", 1, 1);
    negative.installed_size = -1;
    assert_eq!(store.insert_package(negative), Err(StoreError::NegativeSize));
    assert!(store.packages().is_empty());
    assert_eq!(store.insert_package(package("foo", "1.0.0", 1, 1)), Ok(1));
    let mut dependent = package("bar", "0.1.0", 1, 1);
    dependent.dependency_id = Some(1);
    assert_eq!(store.insert_package(dependent), Ok(2));
    assert_eq!(store.package_id("bar"), Some(2));
    assert_eq!(store.package_id("baz"), None);
}

#[test]
fn name_and_version_are_unique_together() {
    let mut store = store_with_kind_and_repository();
    assert_eq!(store.insert_package(package("foo", "1.0.0", 1, 1)), Ok(1));
    assert_eq!(store.insert_package(package("foo", "1.0.0", 1, 1)), Err(StoreError::DuplicatePackage));
    assert_eq!(store.insert_package(package("foo", "1.0.0-rc1", 1, 1)), Ok(2));
    assert_eq!(store.insert_package(package("foo", "1.1.0", 1, 1)), Ok(3));
    assert_eq!(store.packages().len(), 3);
    assert!(store.has_package("foo", &Version::parse("1.1.0").unwrap()));
    assert!(!store.has_package("foo", &Version::parse("2.0.0").unwrap()));
    assert_eq!(store.package_id("foo"), Some(3));
    let row = store.package("foo", &Version::parse("1.0.0-rc1").unwrap()).unwrap();
    assert_eq!(row.id, 2);
    assert!(store.package("bar", &Version::parse("1.0.0").unwrap()).is_none());
}

#[test]
fn a_kind_in_use_cannot_be_deleted() {
    let mut store = store_with_kind_and_repository();
    store.insert_kind("lib").unwrap();
    store.insert_package(package("foo", "1.0.0", 1, 1)).unwrap();
    assert_eq!(store.delete_kind("bin"), Err(StoreError::KindInUse));
    assert_eq!(store.delete_kind("lib"), Ok(true));
    assert_eq!(store.delete_kind("lib"), Ok(false));
    assert_eq!(kind_names(&store), names(&["bin"]));
}

#[test]
fn insert_pkg_kinds_adds_every_kind() {
    let mut store = MetadataStore::new();
    assert_eq!(insert_pkg_kinds(names(&["lib", "bin", "doc"]), &mut store), Ok(()));
    assert_eq!(kind_names(&store), names(&["lib", "bin", "doc"]));
    assert_eq!(store.kind_id("doc"), Some(3));
    assert!(!store.in_transaction());
    assert_eq!(insert_pkg_kinds(vec![], &mut store), Ok(()));
    assert_eq!(kind_names(&store), names(&["lib", "bin", "doc"]));
}

#[test]
fn insert_pkg_kinds_is_all_or_nothing() {
    let mut store = MetadataStore::new();
    store.insert_kind("doc").unwrap();
    assert_eq!(
        insert_pkg_kinds(names(&["lib", "bin", "lib"]), &mut store),
        Err(StoreError::DuplicateName)
    );
    assert_eq!(kind_names(&store), names(&["doc"]));
    assert_eq!(insert_pkg_kinds(names(&["lib", "", "bin"]), &mut store), Err(StoreError::EmptyName));
    assert_eq!(kind_names(&store), names(&["doc"]));
    assert_eq!(insert_pkg_kinds(names(&["lib", "doc"]), &mut store), Err(StoreError::DuplicateName));
    assert_eq!(kind_names(&store), names(&["doc"]));
    assert!(!store.in_transaction());
}

#[test]
fn bulk_operations_need_a_closed_transaction() {
    let mut store = MetadataStore::new();
    store.begin().unwrap();
    assert_eq!(insert_pkg_kinds(names(&["lib"]), &mut store), Err(StoreError::Transaction));
    assert_eq!(delete_pkg_kinds(names(&["lib"]), &mut store), Err(StoreError::Transaction));
    assert!(store.in_transaction());
    assert!(store.kinds().is_empty());
}

#[test]
fn delete_pkg_kinds_is_all_or_nothing() {
    let mut store = store_with_kind_and_repository();
    insert_pkg_kinds(names(&["lib", "doc"]), &mut store).unwrap();
    store.insert_package(package("foo", "1.0.0", 1, 1)).unwrap();
    assert_eq!(delete_pkg_kinds(names(&["lib", "bin", "doc"]), &mut store), Err(StoreError::KindInUse));
    assert_eq!(kind_names(&store), names(&["bin", "lib", "doc"]));
    assert_eq!(delete_pkg_kinds(names(&["lib", "none", "doc"]), &mut store), Ok(()));
    assert_eq!(kind_names(&store), names(&["bin"]));
    assert_eq!(run_kind_batch(KindOperation::Delete, &names(&["bin"]), &mut store), Err(StoreError::KindInUse));
}

/// Plays the driver of a batch against the store. The statement of the row
/// `failing` is reported as failed with `cause` and is not run.
fn drive(
    batch: &mut Batch,
    kinds: &[&str],
    store: &mut MetadataStore,
    failing: Option<(usize, StoreError)>,
) -> (Vec<BatchAction>, Result<(), StoreError>) {
    let mut actions = Vec::new();
    loop {
        let action = batch.action();
        actions.push(action);
        let outcome = match action {
            BatchAction::Begin => store.begin(),
            BatchAction::Row(i) => match failing {
                Some((row, cause)) if row == i => Err(cause),
                _ => store.insert_kind(kinds[i]).map(|_| ()),
            },
            BatchAction::Commit => store.commit(),
            BatchAction::Rollback => store.rollback(),
            BatchAction::Finish(result) => return (actions, result),
        };
        batch.advance(outcome);
    }
}

#[test]
fn a_failed_bind_rolls_the_whole_batch_back() {
    let kinds = ["lib", "bin", "bad kind;"];
    let mut store = MetadataStore::new();
    let mut batch = Batch::new(kinds.len());
    let (actions, result) = drive(&mut batch, &kinds, &mut store, Some((2, StoreError::Bind)));
    assert_eq!(result, Err(StoreError::Bind));
    assert_eq!(
        actions,
        vec![
            BatchAction::Begin,
            BatchAction::Row(0),
            BatchAction::Row(1),
            BatchAction::Row(2),
            BatchAction::Rollback,
            BatchAction::Finish(Err(StoreError::Bind)),
        ]
    );
    assert_eq!(store.kind_id("lib"), None);
    assert_eq!(store.kind_id("bin"), None);
    assert!(store.kinds().is_empty());
    assert!(!store.in_transaction());
    assert!(batch.is_done());
}

#[test]
fn a_batch_that_goes_well_commits_once() {
    let kinds = ["lib", "bin"];
    let mut store = MetadataStore::new();
    let mut batch = Batch::new(kinds.len());
    assert_eq!(batch.phase(), Phase::Start);
    let (actions, result) = drive(&mut batch, &kinds, &mut store, None);
    assert_eq!(result, Ok(()));
    assert_eq!(
        actions,
        vec![
            BatchAction::Begin,
            BatchAction::Row(0),
            BatchAction::Row(1),
            BatchAction::Commit,
            BatchAction::Finish(Ok(())),
        ]
    );
    assert_eq!(kind_names(&store), names(&["lib", "bin"]));
    batch.advance(Err(StoreError::Execute));
    assert_eq!(batch.action(), BatchAction::Finish(Ok(())));
}

#[test]
fn a_batch_whose_transaction_cannot_be_opened_does_nothing() {
    let mut batch = Batch::new(2);
    assert_eq!(batch.action(), BatchAction::Begin);
    batch.advance(Err(StoreError::Execute));
    assert_eq!(batch.action(), BatchAction::Finish(Err(StoreError::Execute)));
    assert_eq!(batch.phase(), Phase::Done { result: Err(StoreError::Execute) });
}

#[test]
fn a_failed_commit_rolls_back() {
    let mut batch = Batch::new(1);
    batch.advance(Ok(()));
    assert_eq!(batch.action(), BatchAction::Row(0));
    batch.advance(Ok(()));
    assert_eq!(batch.action(), BatchAction::Commit);
    batch.advance(Err(StoreError::Execute));
    assert_eq!(batch.action(), BatchAction::Rollback);
    batch.advance(Ok(()));
    assert_eq!(batch.action(), BatchAction::Finish(Err(StoreError::Execute)));
}

#[test]
fn an_empty_batch_opens_and_commits() {
    let mut batch = Batch::new(0);
    assert_eq!(batch.action(), BatchAction::Begin);
    batch.advance(Ok(()));
    assert_eq!(batch.action(), BatchAction::Commit);
    batch.advance(Ok(()));
    assert_eq!(batch.action(), BatchAction::Finish(Ok(())));
}

#[test]
fn statements_have_one_parameter_for_each_value() {
    assert_eq!(INSERT_PACKAGE.matches('?').count(), PACKAGE_COLUMNS);
    assert_eq!(INSERT_KIND.matches('?').count(), 1);
    assert_eq!(DELETE_KIND.matches('?').count(), 1);
    assert_eq!(KindOperation::Insert.statement(), INSERT_KIND);
    assert_eq!(KindOperation::Delete.statement(), DELETE_KIND);
    assert_eq!(BEGIN_TRANSACTION, "BEGIN TRANSACTION;");
    assert_eq!(COMMIT, "COMMIT;");
    assert_eq!(ROLLBACK, "ROLLBACK;");
}

#[test]
fn row_binds_every_field_in_the_order_of_the_columns() {
    let p = Package {
        name: "foo".to_string(),
        description: "a tool".to_string(),
        maintainer: "someone".to_string(),
        homepage: Some("https://example.org".to_string()),
        license: Some("MIT".to_string()),
        installed_size: 1024,
        version: Version::parse("1.2.3-beta").unwrap(),
        kind_id: 4,
        repository_id: 5,
        dependency_id: Some(6),
    };
    assert_eq!(
        p.row(),
        vec![
            SqlValue::Text("foo".to_string()),
            SqlValue::Text("a tool".to_string()),
            SqlValue::Text("someone".to_string()),
            SqlValue::Integer(5),
            SqlValue::Text("https://example.org".to_string()),
            SqlValue::Integer(6),
            SqlValue::Integer(4),
            SqlValue::Integer(1024),
            SqlValue::Text("MIT".to_string()),
            SqlValue::Integer(1),
            SqlValue::Integer(2),
            SqlValue::Integer(3),
            SqlValue::Text("beta".to_string()),
            SqlValue::Text("1.2.3-beta".to_string()),
        ]
    );
}

#[test]
fn row_binds_absent_fields_as_null() {
    let row = package("foo", "1.0.0", 1, 1).row();
    assert_eq!(row.len(), PACKAGE_COLUMNS);
    assert_eq!(row[4], SqlValue::Null);
    assert_eq!(row[5], SqlValue::Null);
    assert_eq!(row[8], SqlValue::Null);
    assert_eq!(row[12], SqlValue::Null);
    assert_eq!(row[13], SqlValue::Text("1.0.0".to_string()));
}

#[test]
fn insert_records_a_package_in_its_own_transaction() {
    let mut store = store_with_kind_and_repository();
    let p = package("foo", "1.0.0", 1, 1);
    assert_eq!(p.insert(&mut store), Ok(1));
    assert!(!store.in_transaction());
    assert_eq!(store.packages()[0].package, p);
    assert_eq!(p.insert(&mut store), Err(StoreError::DuplicatePackage));
    assert_eq!(store.packages().len(), 1);
    assert!(!store.in_transaction());
    store.begin().unwrap();
    assert_eq!(package("bar", "1.0.0", 1, 1).insert(&mut store), Err(StoreError::Transaction));
    assert!(store.in_transaction());
    assert_eq!(store.packages().len(), 1);
}

#[test]
fn a_statement_that_cannot_be_prepared_rolls_back() {
    let kinds = ["lib", "bin"];
    let mut store = MetadataStore::new();
    store.insert_kind("doc").unwrap();
    let mut batch = Batch::new(kinds.len());
    let (actions, result) = drive(&mut batch, &kinds, &mut store, Some((0, StoreError::Prepare)));
    assert_eq!(result, Err(StoreError::Prepare));
    assert_eq!(
        actions,
        vec![
            BatchAction::Begin,
            BatchAction::Row(0),
            BatchAction::Rollback,
            BatchAction::Finish(Err(StoreError::Prepare)),
        ]
    );
    assert_eq!(kind_names(&store), names(&["doc"]));
}

#[test]
fn the_latest_package_of_a_name_is_found() {
    let mut store = store_with_kind_and_repository();
    store.consistent();
    assert!(store.latest_package("foo").is_none());
    store.insert_package(package("foo", "1.0.0", 1, 1)).unwrap();
    store.insert_package(package("bar", "0.1.0", 1, 1)).unwrap();
    store.insert_package(package("foo", "1.1.0", 1, 1)).unwrap();
    let row = store.latest_package("foo").unwrap();
    assert_eq!(row.id, 3);
    assert_eq!(row.package.version.render(), "1.1.0");
    assert_eq!(store.latest_package("bar").unwrap().id, 2);
    store.consistent();
}
