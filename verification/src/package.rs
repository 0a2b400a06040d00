//! Packages as the metadata store records them, and the row that records one.

use crate::version::{render_spec, Version, VersionView};
use vstd::prelude::*;

verus! {

/// The statement that records a package. It has one parameter for each value
/// of [`Package::row`], in the same order.
pub const INSERT_PACKAGE: &'static str =
    "INSERT INTO packages (name, description, maintainer, repository_id, homepage, depended_package_id, package_kind_id, installed_size, license, v_major, v_minor, v_patch, v_tag, v_readable) VALUES (?, ?, ?, ?, ?, ?, ?, ?, ?, ?, ?, ?, ?, ?);";

/// How many values the row of a package has.
pub const PACKAGE_COLUMNS: usize = 14;

/// A package, with every reference resolved to the row it points to.
#[derive(Debug, PartialEq, Eq)]
pub struct Package {
    pub name: String,
    pub description: String,
    pub maintainer: String,
    pub homepage: Option<String>,
    pub license: Option<String>,
    /// The size of the installed files, in bytes.
    pub installed_size: i64,
    pub version: Version,
    /// The row of the package's kind.
    pub kind_id: i64,
    /// The row of the repository that the package comes from.
    pub repository_id: i64,
    /// The row of the package that this one depends on, if it depends on one.
    pub dependency_id: Option<i64>,
}

/// What a package is.
pub struct PackageView {
    pub name: Seq<char>,
    pub description: Seq<char>,
    pub maintainer: Seq<char>,
    pub homepage: Option<Seq<char>>,
    pub license: Option<Seq<char>>,
    pub installed_size: int,
    pub version: VersionView,
    pub kind_id: int,
    pub repository_id: int,
    pub dependency_id: Option<int>,
}

/// The text that an optional text stands for.
pub open spec fn text_view(t: Option<String>) -> Option<Seq<char>> {
    match t {
        Some(s) => Some(s@),
        None => None,
    }
}

/// The number that an optional number stands for.
pub open spec fn number_view(n: Option<i64>) -> Option<int> {
    match n {
        Some(i) => Some(i as int),
        None => None,
    }
}

impl View for Package {
    type V = PackageView;

    open spec fn view(&self) -> PackageView {
        PackageView {
            name: self.name@,
            description: self.description@,
            maintainer: self.maintainer@,
            homepage: text_view(self.homepage),
            license: text_view(self.license),
            installed_size: self.installed_size as int,
            version: self.version@,
            kind_id: self.kind_id as int,
            repository_id: self.repository_id as int,
            dependency_id: number_view(self.dependency_id),
        }
    }
}

/// A value bound to a parameter of a statement.
#[derive(Debug, PartialEq, Eq)]
pub enum SqlValue {
    /// No value.
    Null,
    /// A whole number.
    Integer(i64),
    /// A text.
    Text(String),
}

/// What a bound value is.
pub enum SqlValueView {
    Null,
    Integer(int),
    Text(Seq<char>),
}

impl View for SqlValue {
    type V = SqlValueView;

    open spec fn view(&self) -> SqlValueView {
        match self {
            SqlValue::Null => SqlValueView::Null,
            SqlValue::Integer(n) => SqlValueView::Integer(*n as int),
            SqlValue::Text(s) => SqlValueView::Text(s@),
        }
    }
}

/// The value bound for an optional text: the text, or no value where there is none.
pub open spec fn text_or_null(t: Option<Seq<char>>) -> SqlValueView {
    match t {
        Some(s) => SqlValueView::Text(s),
        None => SqlValueView::Null,
    }
}

/// The value bound for an optional number: the number, or no value where there is none.
pub open spec fn integer_or_null(n: Option<int>) -> SqlValueView {
    match n {
        Some(i) => SqlValueView::Integer(i),
        None => SqlValueView::Null,
    }
}

/// The row that records the package `p`: one value for each column, in the
/// order of the columns.
pub open spec fn row_spec(p: PackageView) -> Seq<SqlValueView> {
    seq![
        SqlValueView::Text(p.name),
        SqlValueView::Text(p.description),
        SqlValueView::Text(p.maintainer),
        SqlValueView::Integer(p.repository_id),
        text_or_null(p.homepage),
        integer_or_null(p.dependency_id),
        SqlValueView::Integer(p.kind_id),
        SqlValueView::Integer(p.installed_size),
        text_or_null(p.license),
        SqlValueView::Integer(p.version.major as int),
        SqlValueView::Integer(p.version.minor as int),
        SqlValueView::Integer(p.version.patch as int),
        text_or_null(p.version.tag),
        SqlValueView::Text(render_spec(p.version)),
    ]
}

/// The value to bind for an optional text.
fn bind_text(t: &Option<String>) -> (v: SqlValue)
    ensures
        v@ == text_or_null(text_view(*t)),
{
    match t {
        Some(s) => SqlValue::Text(s.clone()),
        None => SqlValue::Null,
    }
}

/// The value to bind for an optional number.
fn bind_integer(n: &Option<i64>) -> (v: SqlValue)
    ensures
        v@ == integer_or_null(number_view(*n)),
{
    match n {
        Some(i) => SqlValue::Integer(*i),
        None => SqlValue::Null,
    }
}

/// A copy of an optional text.
pub(crate) fn copy_text(t: &Option<String>) -> (c: Option<String>)
    ensures
        text_view(c) == text_view(*t),
{
    match t {
        Some(s) => Some(s.clone()),
        None => None,
    }
}

impl Clone for Package {
    fn clone(&self) -> (r: Self)
        ensures
            r@ == self@,
    {
        Package {
            name: self.name.clone(),
            description: self.description.clone(),
            maintainer: self.maintainer.clone(),
            homepage: copy_text(&self.homepage),
            license: copy_text(&self.license),
            installed_size: self.installed_size,
            version: self.version.clone(),
            kind_id: self.kind_id,
            repository_id: self.repository_id,
            dependency_id: self.dependency_id,
        }
    }
}

impl Package {
    /// The values to bind to [`INSERT_PACKAGE`], first parameter first. A field
    /// that is absent is bound as [`SqlValue::Null`].
    pub fn row(&self) -> (values: Vec<SqlValue>)
        ensures
            values@.len() == PACKAGE_COLUMNS,
            values@.map_values(|v: SqlValue| v@) == row_spec(self@),
    {
        let mut values: Vec<SqlValue> = Vec::new();
        values.push(SqlValue::Text(self.name.clone()));
        values.push(SqlValue::Text(self.description.clone()));
        values.push(SqlValue::Text(self.maintainer.clone()));
        values.push(SqlValue::Integer(self.repository_id));
        values.push(bind_text(&self.homepage));
        values.push(bind_integer(&self.dependency_id));
        values.push(SqlValue::Integer(self.kind_id));
        values.push(SqlValue::Integer(self.installed_size));
        values.push(bind_text(&self.license));
        values.push(SqlValue::Integer(self.version.major() as i64));
        values.push(SqlValue::Integer(self.version.minor() as i64));
        values.push(SqlValue::Integer(self.version.patch() as i64));
        values.push(bind_text(self.version.tag()));
        values.push(SqlValue::Text(self.version.render()));
        assert(values@.map_values(|v: SqlValue| v@) =~= row_spec(self@));
        values
    }
}

} // verus!
