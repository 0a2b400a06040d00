//! The metadata store: the record of what is installed.
//!
//! The store holds three tables: package kinds, repositories and packages. It
//! keeps them consistent: no kind, repository or (name, version) pair is
//! recorded twice, and every reference of a package points to a row that
//! exists. A transaction remembers the tables as they were when it began, and
//! rolling it back restores them.

use crate::package::{Package, PackageView};
use crate::table::{
    append_check, appended, check_append, contains_id, copy_rows, find_id, has_id, id_of,
    lemma_appended_wf, lemma_removed_wf, next_id, next_row_id, number_of, remove_row, removed,
    rows_view, rows_wf, NamedRow, NamedRowView, RowError,
};
use crate::version::{Version, VersionView};
use vstd::prelude::*;
use vstd::string::*;

verus! {

/// Why the store refused an operation, or could not carry it out.
#[derive(Clone, Copy, Debug, PartialEq, Eq)]
pub enum StoreError {
    /// A statement could not be prepared.
    Prepare,
    /// A value could not be bound to a statement.
    Bind,
    /// A statement could not be executed.
    Execute,
    /// A transaction was begun while one was open, or ended while none was.
    Transaction,
    /// A kind or a repository has an empty name.
    EmptyName,
    /// A kind or a repository with this name is recorded already.
    DuplicateName,
    /// The id of a row is not greater than every id of its table, or no id is left.
    Id,
    /// The kind is the kind of a recorded package.
    KindInUse,
    /// The installed size is negative.
    NegativeSize,
    /// A package with this name and version is recorded already.
    DuplicatePackage,
    /// The package's kind is not recorded.
    UnknownKind,
    /// The package's repository is not recorded.
    UnknownRepository,
    /// The package that this one depends on is not recorded.
    UnknownDependency,
}

/// The error of the store for a row that a table refused.
pub open spec fn row_error(e: RowError) -> StoreError {
    match e {
        RowError::EmptyName => StoreError::EmptyName,
        RowError::Duplicate => StoreError::DuplicateName,
        RowError::Id => StoreError::Id,
    }
}

/// A recorded package.
#[derive(Debug, PartialEq, Eq)]
pub struct PackageRow {
    pub id: i64,
    pub package: Package,
}

/// What a recorded package is.
pub struct PackageRowView {
    pub id: int,
    pub package: PackageView,
}

impl View for PackageRow {
    type V = PackageRowView;

    open spec fn view(&self) -> PackageRowView {
        PackageRowView { id: self.id as int, package: self.package@ }
    }
}

impl Clone for PackageRow {
    fn clone(&self) -> (r: Self)
        ensures
            r@ == self@,
    {
        PackageRow { id: self.id, package: self.package.clone() }
    }
}

/// What the rows of the packages table are.
pub open spec fn packages_view(rows: Seq<PackageRow>) -> Seq<PackageRowView> {
    rows.map_values(|r: PackageRow| r@)
}

/// The three tables.
pub struct TablesView {
    pub kinds: Seq<NamedRowView>,
    pub repositories: Seq<NamedRowView>,
    pub packages: Seq<PackageRowView>,
}

/// What the store is: its tables and, while a transaction is open, the tables
/// as they were when it began.
pub struct StoreView {
    pub tables: TablesView,
    pub saved: Option<TablesView>,
}

/// Where the package with this name and version is recorded.
pub open spec fn package_position(
    packages: Seq<PackageRowView>,
    name: Seq<char>,
    version: VersionView,
) -> Option<int>
    decreases packages.len(),
{
    if packages.len() == 0 {
        None
    } else if packages.last().package.name == name && packages.last().package.version == version {
        Some(packages.len() - 1)
    } else {
        package_position(packages.drop_last(), name, version)
    }
}

/// A package with this name and version is recorded.
pub open spec fn recorded(packages: Seq<PackageRowView>, name: Seq<char>, version: VersionView) -> bool {
    package_position(packages, name, version) is Some
}

/// Where the package named `name` that was recorded last stands.
pub open spec fn latest_position(packages: Seq<PackageRowView>, name: Seq<char>) -> Option<int>
    decreases packages.len(),
{
    if packages.len() == 0 {
        None
    } else if packages.last().package.name == name {
        Some(packages.len() - 1)
    } else {
        latest_position(packages.drop_last(), name)
    }
}

/// The id of the package named `name` that was recorded last.
pub open spec fn latest_id(packages: Seq<PackageRowView>, name: Seq<char>) -> Option<int> {
    match latest_position(packages, name) {
        Some(k) => Some(packages[k].id),
        None => None,
    }
}

/// Some recorded package has the id `id`.
pub open spec fn has_package_id(packages: Seq<PackageRowView>, id: int) -> bool {
    exists|i: int| 0 <= i < packages.len() && (#[trigger] packages[i]).id == id
}

/// Some recorded package is of the kind with the id `kind_id`.
pub open spec fn kind_in_use(packages: Seq<PackageRowView>, kind_id: int) -> bool {
    exists|i: int| 0 <= i < packages.len() && (#[trigger] packages[i]).package.kind_id == kind_id
}

/// The id that the next package gets.
pub open spec fn next_package_id(packages: Seq<PackageRowView>) -> int {
    if packages.len() == 0 {
        1
    } else {
        packages.last().id + 1
    }
}

/// The tables are consistent.
pub open spec fn tables_wf(t: TablesView) -> bool {
    &&& rows_wf(t.kinds)
    &&& rows_wf(t.repositories)
    &&& forall|i: int|
        0 <= i < t.packages.len() ==> {
            let row = #[trigger] t.packages[i];
            &&& 1 <= row.id <= i64::MAX
            &&& row.package.installed_size >= 0
            &&& has_id(t.kinds, row.package.kind_id)
            &&& has_id(t.repositories, row.package.repository_id)
            &&& row.package.dependency_id matches Some(d) ==> has_package_id(t.packages, d)
        }
    &&& forall|i: int, j: int|
        0 <= i < j < t.packages.len() ==> (#[trigger] t.packages[i]).id < (
        #[trigger] t.packages[j]).id
    &&& forall|i: int, j: int|
        0 <= i < j < t.packages.len() ==> !((#[trigger] t.packages[i]).package.name == (
        #[trigger] t.packages[j]).package.name && t.packages[i].package.version
            == t.packages[j].package.version)
}

/// Whether the package `p` can be recorded with the id `id`, and if not, why.
pub open spec fn package_check(t: TablesView, id: int, p: PackageView) -> Option<StoreError> {
    if p.installed_size < 0 {
        Some(StoreError::NegativeSize)
    } else if recorded(t.packages, p.name, p.version) {
        Some(StoreError::DuplicatePackage)
    } else if !has_id(t.kinds, p.kind_id) {
        Some(StoreError::UnknownKind)
    } else if !has_id(t.repositories, p.repository_id) {
        Some(StoreError::UnknownRepository)
    } else if p.dependency_id matches Some(d) && !has_package_id(t.packages, d) {
        Some(StoreError::UnknownDependency)
    } else if id < next_package_id(t.packages) || id > i64::MAX {
        Some(StoreError::Id)
    } else {
        None
    }
}

/// The tables after the package `p` was recorded with the id `id`.
pub open spec fn with_package(t: TablesView, id: int, p: PackageView) -> TablesView {
    TablesView { packages: t.packages.push(PackageRowView { id, package: p }), ..t }
}

/// The tables after a kind named `kind` was added with the id `id`.
pub open spec fn with_kind(t: TablesView, id: int, kind: Seq<char>) -> TablesView {
    TablesView { kinds: appended(t.kinds, id, kind), ..t }
}

/// The tables after a repository named `name` was added with the id `id`.
pub open spec fn with_repository(t: TablesView, id: int, name: Seq<char>) -> TablesView {
    TablesView { repositories: appended(t.repositories, id, name), ..t }
}

/// The tables after the kind named `kind` was taken out.
pub open spec fn without_kind(t: TablesView, kind: Seq<char>) -> TablesView {
    TablesView { kinds: removed(t.kinds, kind), ..t }
}

/// The kind named `kind` is recorded and some package is of that kind.
pub open spec fn kind_is_used(t: TablesView, kind: Seq<char>) -> bool {
    id_of(t.kinds, kind) matches Some(id) && kind_in_use(t.packages, id)
}

/// A package has a position exactly when it is recorded, and then it stands there.
pub proof fn lemma_package_position(
    packages: Seq<PackageRowView>,
    name: Seq<char>,
    version: VersionView,
)
    ensures
        match package_position(packages, name, version) {
            Some(k) => 0 <= k < packages.len() && packages[k].package.name == name
                && packages[k].package.version == version,
            None => forall|i: int|
                0 <= i < packages.len() ==> !((#[trigger] packages[i]).package.name == name
                    && packages[i].package.version == version),
        },
    decreases packages.len(),
{
    if packages.len() == 0 {
    } else if packages.last().package.name == name && packages.last().package.version == version {
    } else {
        let rest = packages.drop_last();
        lemma_package_position(rest, name, version);
        match package_position(rest, name, version) {
            Some(k) => {
                assert(rest[k] == packages[k]);
            },
            None => {
                assert forall|i: int| 0 <= i < packages.len() implies !((
                #[trigger] packages[i]).package.name == name && packages[i].package.version
                    == version) by {
                    if i < packages.len() - 1 {
                        assert(rest[i] == packages[i]);
                    }
                }
            },
        }
    }
}

/// A name has a latest package exactly when a package has that name.
pub proof fn lemma_latest_position(packages: Seq<PackageRowView>, name: Seq<char>)
    ensures
        match latest_position(packages, name) {
            Some(k) => 0 <= k < packages.len() && packages[k].package.name == name
                && has_package_id(packages, packages[k].id),
            None => forall|i: int|
                0 <= i < packages.len() ==> (#[trigger] packages[i]).package.name != name,
        },
    decreases packages.len(),
{
    if packages.len() == 0 {
    } else if packages.last().package.name == name {
        assert(packages[packages.len() - 1].id == packages.last().id);
    } else {
        let rest = packages.drop_last();
        lemma_latest_position(rest, name);
        match latest_position(rest, name) {
            Some(k) => {
                assert(rest[k] == packages[k]);
                assert(packages[k].id == rest[k].id);
            },
            None => {
                assert forall|i: int| 0 <= i < packages.len() implies (
                #[trigger] packages[i]).package.name != name by {
                    if i < packages.len() - 1 {
                        assert(rest[i] == packages[i]);
                    }
                }
            },
        }
    }
}

/// Recording a package that passes the check keeps the tables consistent.
pub proof fn lemma_with_package_wf(t: TablesView, id: int, p: PackageView)
    requires
        tables_wf(t),
        package_check(t, id, p) is None,
    ensures
        tables_wf(with_package(t, id, p)),
        recorded(with_package(t, id, p).packages, p.name, p.version),
{
    let after = with_package(t, id, p);
    let n = t.packages.len() as int;
    lemma_package_position(t.packages, p.name, p.version);
    assert(after.packages.drop_last() =~= t.packages);
    assert forall|d: int| has_package_id(t.packages, d) implies has_package_id(
        after.packages,
        d,
    ) by {
        let i = choose|i: int| 0 <= i < t.packages.len() && (#[trigger] t.packages[i]).id == d;
        assert(after.packages[i].id == d);
    }
    assert forall|i: int| 0 <= i < after.packages.len() implies {
        let row = #[trigger] after.packages[i];
        &&& 1 <= row.id <= i64::MAX
        &&& row.package.installed_size >= 0
        &&& has_id(after.kinds, row.package.kind_id)
        &&& has_id(after.repositories, row.package.repository_id)
        &&& row.package.dependency_id matches Some(d) ==> has_package_id(after.packages, d)
    } by {
        if i < n {
            assert(after.packages[i] == t.packages[i]);
        } else {
            if n > 0 {
                assert(t.packages[n - 1].id >= 1);
            }
        }
    }
    assert forall|i: int, j: int| 0 <= i < j < after.packages.len() implies (
    #[trigger] after.packages[i]).id < (#[trigger] after.packages[j]).id && !(
    after.packages[i].package.name == after.packages[j].package.name
        && after.packages[i].package.version == after.packages[j].package.version) by {
        assert(after.packages[i] == t.packages[i]);
        if j < n {
            assert(after.packages[j] == t.packages[j]);
        } else {
            if i < n - 1 {
                assert(t.packages[i].id < t.packages[n - 1].id);
            }
        }
    }
}

/// Adding a kind that passes the check keeps the tables consistent.
pub proof fn lemma_with_kind_wf(t: TablesView, id: int, kind: Seq<char>)
    requires
        tables_wf(t),
        append_check(t.kinds, id, kind) is None,
    ensures
        tables_wf(with_kind(t, id, kind)),
{
    lemma_appended_wf(t.kinds, id, kind);
}

/// Adding a repository that passes the check keeps the tables consistent.
pub proof fn lemma_with_repository_wf(t: TablesView, id: int, name: Seq<char>)
    requires
        tables_wf(t),
        append_check(t.repositories, id, name) is None,
    ensures
        tables_wf(with_repository(t, id, name)),
{
    lemma_appended_wf(t.repositories, id, name);
}

/// Taking out a kind that no package is of keeps the tables consistent.
pub proof fn lemma_without_kind_wf(t: TablesView, kind: Seq<char>)
    requires
        tables_wf(t),
        !kind_is_used(t, kind),
    ensures
        tables_wf(without_kind(t, kind)),
{
    lemma_removed_wf(t.kinds, kind);
    let after = without_kind(t, kind);
    assert forall|i: int| 0 <= i < after.packages.len() implies has_id(
        after.kinds,
        (#[trigger] after.packages[i]).package.kind_id,
    ) by {
        let id = t.packages[i].package.kind_id;
        assert(has_id(t.kinds, id));
        if id_of(t.kinds, kind) == Some(id) {
            assert(kind_in_use(t.packages, id));
        }
    }
}

/// Finds the package with this name and version.
fn find_package(rows: &Vec<PackageRow>, name: &str, version: &Version) -> (r: Option<usize>)
    ensures
        match r {
            Some(k) => package_position(packages_view(rows@), name@, version@) == Some(k as int)
                && k < rows.len(),
            None => package_position(packages_view(rows@), name@, version@) is None,
        },
{
    let wanted = String::from_str(name);
    let ghost view = packages_view(rows@);
    let mut i: usize = rows.len();
    assert(view.take(i as int) =~= view);
    while i > 0
        invariant
            i <= rows.len(),
            wanted@ == name@,
            view == packages_view(rows@),
            package_position(view, name@, version@) == package_position(
                view.take(i as int),
                name@,
                version@,
            ),
        decreases i,
    {
        assert(view.take(i as int).last() == rows@[i - 1]@);
        assert(view.take(i as int).drop_last() =~= view.take(i - 1));
        i = i - 1;
        if rows[i].package.name == wanted && rows[i].package.version.same_as(version) {
            return Some(i);
        }
    }
    None
}

/// Finds the package named `name` that was recorded last.
fn find_latest(rows: &Vec<PackageRow>, name: &str) -> (r: Option<usize>)
    ensures
        match r {
            Some(k) => latest_position(packages_view(rows@), name@) == Some(k as int) && k
                < rows.len(),
            None => latest_position(packages_view(rows@), name@) is None,
        },
{
    let wanted = String::from_str(name);
    let ghost view = packages_view(rows@);
    let mut i: usize = rows.len();
    assert(view.take(i as int) =~= view);
    while i > 0
        invariant
            i <= rows.len(),
            wanted@ == name@,
            view == packages_view(rows@),
            latest_position(view, name@) == latest_position(view.take(i as int), name@),
        decreases i,
    {
        assert(view.take(i as int).last() == rows@[i - 1]@);
        assert(view.take(i as int).drop_last() =~= view.take(i - 1));
        i = i - 1;
        if rows[i].package.name == wanted {
            return Some(i);
        }
    }
    None
}

/// Tells whether some package has the id `id`.
fn contains_package_id(rows: &Vec<PackageRow>, id: i64) -> (r: bool)
    ensures
        r == has_package_id(packages_view(rows@), id as int),
{
    let ghost view = packages_view(rows@);
    let mut i: usize = 0;
    while i < rows.len()
        invariant
            i <= rows.len(),
            view == packages_view(rows@),
            forall|j: int| 0 <= j < i ==> (#[trigger] view[j]).id != id,
        decreases rows.len() - i,
    {
        if rows[i].id == id {
            assert(view[i as int].id == id);
            return true;
        }
        i = i + 1;
    }
    false
}

/// Tells whether some package is of the kind with the id `kind_id`.
fn uses_kind(rows: &Vec<PackageRow>, kind_id: i64) -> (r: bool)
    ensures
        r == kind_in_use(packages_view(rows@), kind_id as int),
{
    let ghost view = packages_view(rows@);
    let mut i: usize = 0;
    while i < rows.len()
        invariant
            i <= rows.len(),
            view == packages_view(rows@),
            forall|j: int| 0 <= j < i ==> (#[trigger] view[j]).package.kind_id != kind_id,
        decreases rows.len() - i,
    {
        if rows[i].package.kind_id == kind_id {
            assert(view[i as int].package.kind_id == kind_id);
            return true;
        }
        i = i + 1;
    }
    false
}

/// A copy of the packages.
fn copy_packages(rows: &Vec<PackageRow>) -> (copy: Vec<PackageRow>)
    ensures
        packages_view(copy@) == packages_view(rows@),
{
    let mut copy: Vec<PackageRow> = Vec::new();
    let mut i: usize = 0;
    while i < rows.len()
        invariant
            i <= rows.len(),
            packages_view(copy@) == packages_view(rows@).take(i as int),
        decreases rows.len() - i,
    {
        let ghost done = copy@;
        let row = rows[i].clone();
        copy.push(row);
        assert(packages_view(copy@) =~= packages_view(done).push(row@));
        assert(packages_view(rows@).take(i + 1) =~= packages_view(rows@).take(i as int).push(
            rows@[i as int]@,
        ));
        i = i + 1;
    }
    assert(packages_view(rows@).take(i as int) =~= packages_view(rows@));
    copy
}

/// The tables as they are kept.
#[derive(Debug)]
struct Tables {
    kinds: Vec<NamedRow>,
    repositories: Vec<NamedRow>,
    packages: Vec<PackageRow>,
}

impl View for Tables {
    type V = TablesView;

    closed spec fn view(&self) -> TablesView {
        TablesView {
            kinds: rows_view(self.kinds@),
            repositories: rows_view(self.repositories@),
            packages: packages_view(self.packages@),
        }
    }
}

impl Tables {
    fn copy(&self) -> (r: Tables)
        ensures
            r@ == self@,
    {
        Tables {
            kinds: copy_rows(&self.kinds),
            repositories: copy_rows(&self.repositories),
            packages: copy_packages(&self.packages),
        }
    }
}

/// What the saved tables are, while there are any.
spec fn saved_view(saved: Option<Tables>) -> Option<TablesView> {
    match saved {
        Some(t) => Some(t@),
        None => None,
    }
}

/// The metadata store.
#[derive(Debug)]
pub struct MetadataStore {
    tables: Tables,
    saved: Option<Tables>,
}

impl View for MetadataStore {
    type V = StoreView;

    closed spec fn view(&self) -> StoreView {
        StoreView { tables: self.tables@, saved: saved_view(self.saved) }
    }
}

impl MetadataStore {
    #[verifier::type_invariant]
    spec fn well_formed(&self) -> bool {
        &&& tables_wf(self.tables@)
        &&& self.saved matches Some(t) ==> tables_wf(t@)
    }

    /// A store that records nothing.
    pub fn new() -> (store: MetadataStore)
        ensures
            store@.saved is None,
            store@.tables.kinds.len() == 0,
            store@.tables.repositories.len() == 0,
            store@.tables.packages.len() == 0,
    {
        MetadataStore {
            tables: Tables { kinds: Vec::new(), repositories: Vec::new(), packages: Vec::new() },
            saved: None,
        }
    }

    /// Takes the tables out and leaves empty ones.
    fn take_tables(&mut self) -> (tables: Tables)
        ensures
            tables@ == old(self)@.tables,
            tables_wf(tables@),
            final(self)@.saved == old(self)@.saved,
    {
        proof {
            use_type_invariant(&*self);
        }
        let mut tables = Tables {
            kinds: Vec::new(),
            repositories: Vec::new(),
            packages: Vec::new(),
        };
        core::mem::swap(&mut tables, &mut self.tables);
        tables
    }

    /// Puts tables in.
    fn put_tables(&mut self, tables: Tables)
        requires
            tables_wf(tables@),
        ensures
            final(self)@ == (StoreView { tables: tables@, saved: old(self)@.saved }),
    {
        proof {
            use_type_invariant(&*self);
        }
        self.tables = tables;
    }

    /// Shows that the tables are consistent, and so are the saved ones.
    pub fn consistent(&self)
        ensures
            tables_wf(self@.tables),
            self@.saved matches Some(t) ==> tables_wf(t),
    {
        proof {
            use_type_invariant(self);
        }
    }

    /// Tells whether a transaction is open.
    pub fn in_transaction(&self) -> (open: bool)
        ensures
            open == self@.saved is Some,
    {
        self.saved.is_some()
    }

    /// Opens a transaction. Fails, and changes nothing, if one is open.
    pub fn begin(&mut self) -> (r: Result<(), StoreError>)
        ensures
            match r {
                Ok(_) => old(self)@.saved is None && final(self)@ == (StoreView {
                    tables: old(self)@.tables,
                    saved: Some(old(self)@.tables),
                }),
                Err(e) => e == StoreError::Transaction && old(self)@.saved is Some && final(self)@
                    == old(self)@,
            },
    {
        proof {
            use_type_invariant(&*self);
        }
        if self.saved.is_some() {
            return Err(StoreError::Transaction);
        }
        let copy = self.tables.copy();
        self.saved = Some(copy);
        Ok(())
    }

    /// Closes the transaction and keeps what was done in it. Fails, and changes
    /// nothing, if none is open.
    pub fn commit(&mut self) -> (r: Result<(), StoreError>)
        ensures
            match r {
                Ok(_) => old(self)@.saved is Some && final(self)@ == (StoreView {
                    tables: old(self)@.tables,
                    saved: None,
                }),
                Err(e) => e == StoreError::Transaction && old(self)@.saved is None && final(self)@
                    == old(self)@,
            },
    {
        proof {
            use_type_invariant(&*self);
        }
        if self.saved.is_none() {
            return Err(StoreError::Transaction);
        }
        self.saved = None;
        Ok(())
    }

    /// Closes the transaction and restores the tables as they were when it
    /// began. Fails, and changes nothing, if none is open.
    pub fn rollback(&mut self) -> (r: Result<(), StoreError>)
        ensures
            match r {
                Ok(_) => old(self)@.saved matches Some(t) && final(self)@ == (StoreView {
                    tables: t,
                    saved: None,
                }),
                Err(e) => e == StoreError::Transaction && old(self)@.saved is None && final(self)@
                    == old(self)@,
            },
    {
        proof {
            use_type_invariant(&*self);
        }
        let mut saved: Option<Tables> = None;
        core::mem::swap(&mut saved, &mut self.saved);
        match saved {
            Some(tables) => {
                self.tables = tables;
                Ok(())
            },
            None => Err(StoreError::Transaction),
        }
    }

    /// The id of the kind named `kind`.
    pub fn kind_id(&self, kind: &str) -> (r: Option<i64>)
        ensures
            number_of(r) == id_of(self@.tables.kinds, kind@),
    {
        find_id(&self.tables.kinds, kind)
    }

    /// The id of the repository named `name`.
    pub fn repository_id(&self, name: &str) -> (r: Option<i64>)
        ensures
            number_of(r) == id_of(self@.tables.repositories, name@),
    {
        find_id(&self.tables.repositories, name)
    }

    /// The id of the package named `name` that was recorded last.
    pub fn package_id(&self, name: &str) -> (r: Option<i64>)
        ensures
            number_of(r) == latest_id(self@.tables.packages, name@),
            r matches Some(id) ==> has_package_id(self@.tables.packages, id as int),
    {
        proof {
            lemma_latest_position(self@.tables.packages, name@);
        }
        match find_latest(&self.tables.packages, name) {
            Some(k) => Some(self.tables.packages[k].id),
            None => None,
        }
    }

    /// Tells whether a package with this name and version is recorded.
    pub fn has_package(&self, name: &str, version: &Version) -> (r: bool)
        ensures
            r == recorded(self@.tables.packages, name@, version@),
    {
        find_package(&self.tables.packages, name, version).is_some()
    }

    /// The record of the package with this name and version.
    pub fn package(&self, name: &str, version: &Version) -> (r: Option<&PackageRow>)
        ensures
            match r {
                Some(row) => package_position(self@.tables.packages, name@, version@) matches Some(
                    k,
                ) && self@.tables.packages[k] == row@,
                None => !recorded(self@.tables.packages, name@, version@),
            },
    {
        match find_package(&self.tables.packages, name, version) {
            Some(k) => Some(&self.tables.packages[k]),
            None => None,
        }
    }

    /// The record of the package named `name` that was recorded last.
    pub fn latest_package(&self, name: &str) -> (r: Option<&PackageRow>)
        ensures
            match r {
                Some(row) => latest_position(self@.tables.packages, name@) matches Some(k)
                    && self@.tables.packages[k] == row@,
                None => latest_position(self@.tables.packages, name@) is None,
            },
    {
        match find_latest(&self.tables.packages, name) {
            Some(k) => Some(&self.tables.packages[k]),
            None => None,
        }
    }

    /// The rows of the kinds table.
    pub fn kinds(&self) -> (rows: &Vec<NamedRow>)
        ensures
            rows_view(rows@) == self@.tables.kinds,
    {
        &self.tables.kinds
    }

    /// The rows of the repositories table.
    pub fn repositories(&self) -> (rows: &Vec<NamedRow>)
        ensures
            rows_view(rows@) == self@.tables.repositories,
    {
        &self.tables.repositories
    }

    /// The rows of the packages table.
    pub fn packages(&self) -> (rows: &Vec<PackageRow>)
        ensures
            packages_view(rows@) == self@.tables.packages,
    {
        &self.tables.packages
    }

    /// Adds a kind with a given id, as when the table is read back from where it
    /// is kept. Changes nothing if the row is refused.
    pub fn restore_kind(&mut self, id: i64, kind: &str) -> (r: Result<(), StoreError>)
        ensures
            match r {
                Ok(_) => append_check(old(self)@.tables.kinds, id as int, kind@) is None
                    && final(self)@ == (StoreView {
                    tables: with_kind(old(self)@.tables, id as int, kind@),
                    saved: old(self)@.saved,
                }),
                Err(e) => append_check(old(self)@.tables.kinds, id as int, kind@) matches Some(
                    cause,
                ) && e == row_error(cause) && final(self)@ == old(self)@,
            },
    {
        proof {
            use_type_invariant(&*self);
        }
        match check_append(&self.tables.kinds, id, kind) {
            Some(RowError::EmptyName) => Err(StoreError::EmptyName),
            Some(RowError::Duplicate) => Err(StoreError::DuplicateName),
            Some(RowError::Id) => Err(StoreError::Id),
            None => {
                let row = NamedRow { id, name: String::from_str(kind) };
                let mut tables = self.take_tables();
                let ghost before = tables@;
                tables.kinds.push(row);
                proof {
                    lemma_with_kind_wf(before, id as int, kind@);
                    assert(tables@.kinds =~= appended(before.kinds, id as int, kind@));
                }
                self.put_tables(tables);
                Ok(())
            },
        }
    }

    /// Adds a kind named `kind`, with the next id.
    pub fn insert_kind(&mut self, kind: &str) -> (r: Result<i64, StoreError>)
        ensures
            match r {
                Ok(id) => {
                    &&& id == next_id(old(self)@.tables.kinds)
                    &&& append_check(old(self)@.tables.kinds, id as int, kind@) is None
                    &&& final(self)@ == (StoreView {
                        tables: with_kind(old(self)@.tables, id as int, kind@),
                        saved: old(self)@.saved,
                    })
                },
                Err(e) => append_check(
                    old(self)@.tables.kinds,
                    next_id(old(self)@.tables.kinds),
                    kind@,
                ) matches Some(cause) && e == row_error(cause) && final(self)@ == old(self)@,
            },
    {
        proof {
            use_type_invariant(&*self);
        }
        // Where no id is left the greatest one stands in: it is refused, after
        // any other fault of the name.
        let id = match next_row_id(&self.tables.kinds) {
            Some(id) => id,
            None => i64::MAX,
        };
        match self.restore_kind(id, kind) {
            Ok(_) => Ok(id),
            Err(e) => Err(e),
        }
    }

    /// Adds a repository with a given id. Changes nothing if the row is refused.
    pub fn restore_repository(&mut self, id: i64, name: &str) -> (r: Result<(), StoreError>)
        ensures
            match r {
                Ok(_) => append_check(old(self)@.tables.repositories, id as int, name@) is None
                    && final(self)@ == (StoreView {
                    tables: with_repository(old(self)@.tables, id as int, name@),
                    saved: old(self)@.saved,
                }),
                Err(e) => append_check(
                    old(self)@.tables.repositories,
                    id as int,
                    name@,
                ) matches Some(cause) && e == row_error(cause) && final(self)@ == old(self)@,
            },
    {
        proof {
            use_type_invariant(&*self);
        }
        match check_append(&self.tables.repositories, id, name) {
            Some(RowError::EmptyName) => Err(StoreError::EmptyName),
            Some(RowError::Duplicate) => Err(StoreError::DuplicateName),
            Some(RowError::Id) => Err(StoreError::Id),
            None => {
                let row = NamedRow { id, name: String::from_str(name) };
                let mut tables = self.take_tables();
                let ghost before = tables@;
                tables.repositories.push(row);
                proof {
                    lemma_with_repository_wf(before, id as int, name@);
                    assert(tables@.repositories =~= appended(
                        before.repositories,
                        id as int,
                        name@,
                    ));
                }
                self.put_tables(tables);
                Ok(())
            },
        }
    }

    /// Adds a repository named `name`, with the next id.
    pub fn insert_repository(&mut self, name: &str) -> (r: Result<i64, StoreError>)
        ensures
            match r {
                Ok(id) => {
                    &&& id == next_id(old(self)@.tables.repositories)
                    &&& append_check(old(self)@.tables.repositories, id as int, name@) is None
                    &&& final(self)@ == (StoreView {
                        tables: with_repository(old(self)@.tables, id as int, name@),
                        saved: old(self)@.saved,
                    })
                },
                Err(e) => append_check(
                    old(self)@.tables.repositories,
                    next_id(old(self)@.tables.repositories),
                    name@,
                ) matches Some(cause) && e == row_error(cause) && final(self)@ == old(self)@,
            },
    {
        proof {
            use_type_invariant(&*self);
        }
        // Where no id is left the greatest one stands in: it is refused, after
        // any other fault of the name.
        let id = match next_row_id(&self.tables.repositories) {
            Some(id) => id,
            None => i64::MAX,
        };
        match self.restore_repository(id, name) {
            Ok(_) => Ok(id),
            Err(e) => Err(e),
        }
    }

    /// Takes out the kind named `kind` and tells whether there was one. A kind
    /// that a recorded package is of stays, and the call fails.
    pub fn delete_kind(&mut self, kind: &str) -> (r: Result<bool, StoreError>)
        ensures
            match r {
                Ok(found) => {
                    &&& !kind_is_used(old(self)@.tables, kind@)
                    &&& found == (id_of(old(self)@.tables.kinds, kind@) is Some)
                    &&& final(self)@ == (StoreView {
                        tables: without_kind(old(self)@.tables, kind@),
                        saved: old(self)@.saved,
                    })
                },
                Err(e) => e == StoreError::KindInUse && kind_is_used(old(self)@.tables, kind@)
                    && final(self)@ == old(self)@,
            },
    {
        proof {
            use_type_invariant(&*self);
        }
        match find_id(&self.tables.kinds, kind) {
            Some(id) => {
                if uses_kind(&self.tables.packages, id) {
                    return Err(StoreError::KindInUse);
                }
            },
            None => {},
        }
        let mut tables = self.take_tables();
        proof {
            lemma_without_kind_wf(tables@, kind@);
        }
        let found = remove_row(&mut tables.kinds, kind);
        self.put_tables(tables);
        Ok(found)
    }

    /// Records a package with a given id. Changes nothing if the row is refused.
    pub fn restore_package(&mut self, id: i64, package: Package) -> (r: Result<(), StoreError>)
        ensures
            match r {
                Ok(_) => package_check(old(self)@.tables, id as int, package@) is None
                    && final(self)@ == (StoreView {
                    tables: with_package(old(self)@.tables, id as int, package@),
                    saved: old(self)@.saved,
                }),
                Err(e) => package_check(old(self)@.tables, id as int, package@) == Some(e)
                    && final(self)@ == old(self)@,
            },
    {
        proof {
            use_type_invariant(&*self);
        }
        if package.installed_size < 0 {
            return Err(StoreError::NegativeSize);
        }
        if find_package(&self.tables.packages, package.name.as_str(), &package.version).is_some() {
            return Err(StoreError::DuplicatePackage);
        }
        if !contains_id(&self.tables.kinds, package.kind_id) {
            return Err(StoreError::UnknownKind);
        }
        if !contains_id(&self.tables.repositories, package.repository_id) {
            return Err(StoreError::UnknownRepository);
        }
        match package.dependency_id {
            Some(d) => {
                if !contains_package_id(&self.tables.packages, d) {
                    return Err(StoreError::UnknownDependency);
                }
            },
            None => {},
        }
        match self.next_package_id() {
            Some(next) => {
                if id < next {
                    return Err(StoreError::Id);
                }
            },
            None => {
                return Err(StoreError::Id);
            },
        }
        let ghost view = package@;
        let row = PackageRow { id, package };
        let mut tables = self.take_tables();
        let ghost before = tables@;
        tables.packages.push(row);
        proof {
            lemma_with_package_wf(before, id as int, view);
            assert(tables@.packages =~= with_package(before, id as int, view).packages);
        }
        self.put_tables(tables);
        Ok(())
    }

    /// The id that the next package gets, if one is left.
    pub fn next_package_id(&self) -> (r: Option<i64>)
        ensures
            match r {
                Some(id) => id == next_package_id(self@.tables.packages),
                None => next_package_id(self@.tables.packages) > i64::MAX,
            },
    {
        proof {
            use_type_invariant(self);
        }
        let rows = &self.tables.packages;
        if rows.len() == 0 {
            Some(1)
        } else {
            let last = rows[rows.len() - 1].id;
            assert(packages_view(rows@).last() == rows@[rows.len() - 1]@);
            if last == i64::MAX {
                None
            } else {
                assert(packages_view(rows@)[rows.len() - 1].id >= 1);
                Some(last + 1)
            }
        }
    }

    /// Records a package, with the next id.
    pub fn insert_package(&mut self, package: Package) -> (r: Result<i64, StoreError>)
        ensures
            match r {
                Ok(id) => {
                    &&& id == next_package_id(old(self)@.tables.packages)
                    &&& package_check(old(self)@.tables, id as int, package@) is None
                    &&& final(self)@ == (StoreView {
                        tables: with_package(old(self)@.tables, id as int, package@),
                        saved: old(self)@.saved,
                    })
                },
                Err(e) => package_check(
                    old(self)@.tables,
                    next_package_id(old(self)@.tables.packages),
                    package@,
                ) == Some(e) && final(self)@ == old(self)@,
            },
    {
        // Where no id is left the greatest one stands in: it is refused, after
        // any other fault of the package.
        let id = match self.next_package_id() {
            Some(id) => id,
            None => i64::MAX,
        };
        match self.restore_package(id, package) {
            Ok(_) => Ok(id),
            Err(e) => Err(e),
        }
    }
}

} // verus!
