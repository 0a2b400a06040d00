//! Tables of named rows: package kinds and repositories.
//!
//! A row has an id and a name. Ids are handed out in increasing order and no
//! name occurs twice.

use vstd::prelude::*;
use vstd::string::*;

verus! {

/// A row of a table of names.
#[derive(Debug, PartialEq, Eq)]
pub struct NamedRow {
    pub id: i64,
    pub name: String,
}

/// What a row is.
pub struct NamedRowView {
    pub id: int,
    pub name: Seq<char>,
}

impl View for NamedRow {
    type V = NamedRowView;

    open spec fn view(&self) -> NamedRowView {
        NamedRowView { id: self.id as int, name: self.name@ }
    }
}

impl Clone for NamedRow {
    fn clone(&self) -> (r: Self)
        ensures
            r@ == self@,
    {
        NamedRow { id: self.id, name: self.name.clone() }
    }
}

/// What the rows of a table are.
pub open spec fn rows_view(rows: Seq<NamedRow>) -> Seq<NamedRowView> {
    rows.map_values(|r: NamedRow| r@)
}

/// The rows of a table: ids from 1 upward in increasing order, every name
/// non-empty, no name twice.
pub open spec fn rows_wf(rows: Seq<NamedRowView>) -> bool {
    &&& forall|i: int|
        0 <= i < rows.len() ==> 1 <= (#[trigger] rows[i]).id <= i64::MAX && rows[i].name.len() > 0
    &&& forall|i: int, j: int|
        0 <= i < j < rows.len() ==> (#[trigger] rows[i]).id < (#[trigger] rows[j]).id
    &&& forall|i: int, j: int|
        0 <= i < j < rows.len() ==> (#[trigger] rows[i]).name != (#[trigger] rows[j]).name
}

/// Where the row named `name` stands.
pub open spec fn position_of(rows: Seq<NamedRowView>, name: Seq<char>) -> Option<int>
    decreases rows.len(),
{
    if rows.len() == 0 {
        None
    } else if rows.last().name == name {
        Some(rows.len() - 1)
    } else {
        position_of(rows.drop_last(), name)
    }
}

/// The id of the row named `name`.
pub open spec fn id_of(rows: Seq<NamedRowView>, name: Seq<char>) -> Option<int> {
    match position_of(rows, name) {
        Some(k) => Some(rows[k].id),
        None => None,
    }
}

/// Some row has the id `id`.
pub open spec fn has_id(rows: Seq<NamedRowView>, id: int) -> bool {
    exists|i: int| 0 <= i < rows.len() && (#[trigger] rows[i]).id == id
}

/// The names of the rows, in order.
pub open spec fn names_of(rows: Seq<NamedRowView>) -> Seq<Seq<char>> {
    rows.map_values(|r: NamedRowView| r.name)
}

/// The id that the next row gets: one more than the last.
pub open spec fn next_id(rows: Seq<NamedRowView>) -> int {
    if rows.len() == 0 {
        1
    } else {
        rows.last().id + 1
    }
}

/// The rows without the one named `name`.
pub open spec fn removed(rows: Seq<NamedRowView>, name: Seq<char>) -> Seq<NamedRowView> {
    match position_of(rows, name) {
        Some(k) => rows.remove(k),
        None => rows,
    }
}

/// A name has a position exactly when a row has that name, and then that row
/// stands there.
pub proof fn lemma_position_of(rows: Seq<NamedRowView>, name: Seq<char>)
    ensures
        match position_of(rows, name) {
            Some(k) => 0 <= k < rows.len() && rows[k].name == name,
            None => forall|i: int| 0 <= i < rows.len() ==> (#[trigger] rows[i]).name != name,
        },
    decreases rows.len(),
{
    if rows.len() == 0 {
    } else if rows.last().name == name {
    } else {
        let rest = rows.drop_last();
        lemma_position_of(rest, name);
        match position_of(rest, name) {
            Some(k) => {
                assert(rest[k] == rows[k]);
            },
            None => {
                assert forall|i: int| 0 <= i < rows.len() implies (#[trigger] rows[i]).name
                    != name by {
                    if i < rows.len() - 1 {
                        assert(rest[i].name != name);
                    }
                }
            },
        }
    }
}

/// A name has an id exactly when a row has that name, and then it is that row's id.
pub proof fn lemma_id_of(rows: Seq<NamedRowView>, name: Seq<char>)
    ensures
        id_of(rows, name) is Some <==> exists|i: int|
            0 <= i < rows.len() && (#[trigger] rows[i]).name == name,
        id_of(rows, name) matches Some(id) ==> has_id(rows, id),
{
    lemma_position_of(rows, name);
    if position_of(rows, name) is None {
        assert forall|i: int| 0 <= i < rows.len() implies (#[trigger] rows[i]).name != name by {}
    }
}

/// Finds the row named `name`.
pub(crate) fn find_position(rows: &Vec<NamedRow>, name: &str) -> (r: Option<usize>)
    ensures
        match r {
            Some(k) => position_of(rows_view(rows@), name@) == Some(k as int) && k < rows.len(),
            None => position_of(rows_view(rows@), name@) is None,
        },
{
    let wanted = String::from_str(name);
    let ghost view = rows_view(rows@);
    let mut i: usize = rows.len();
    assert(view.take(i as int) =~= view);
    while i > 0
        invariant
            i <= rows.len(),
            wanted@ == name@,
            view == rows_view(rows@),
            position_of(view, name@) == position_of(view.take(i as int), name@),
        decreases i,
    {
        assert(view.take(i as int).last() == rows@[i - 1]@);
        assert(view.take(i as int).drop_last() =~= view.take(i - 1));
        i = i - 1;
        if rows[i].name == wanted {
            return Some(i);
        }
    }
    None
}

/// Looks up the id of the row named `name`.
pub(crate) fn find_id(rows: &Vec<NamedRow>, name: &str) -> (r: Option<i64>)
    ensures
        number_of(r) == id_of(rows_view(rows@), name@),
{
    match find_position(rows, name) {
        Some(k) => Some(rows[k].id),
        None => None,
    }
}

/// The number that an optional id stands for.
pub open spec fn number_of(n: Option<i64>) -> Option<int> {
    match n {
        Some(i) => Some(i as int),
        None => None,
    }
}

/// Tells whether some row has the id `id`.
pub(crate) fn contains_id(rows: &Vec<NamedRow>, id: i64) -> (r: bool)
    ensures
        r == has_id(rows_view(rows@), id as int),
{
    let ghost view = rows_view(rows@);
    let mut i: usize = 0;
    while i < rows.len()
        invariant
            i <= rows.len(),
            view == rows_view(rows@),
            forall|j: int| 0 <= j < i ==> (#[trigger] view[j]).id != id,
        decreases rows.len() - i,
    {
        if rows[i].id == id {
            assert(view[i as int].id == id);
            return true;
        }
        i = i + 1;
    }
    false
}

/// A copy of the rows.
pub(crate) fn copy_rows(rows: &Vec<NamedRow>) -> (copy: Vec<NamedRow>)
    ensures
        rows_view(copy@) == rows_view(rows@),
{
    let mut copy: Vec<NamedRow> = Vec::new();
    let mut i: usize = 0;
    while i < rows.len()
        invariant
            i <= rows.len(),
            rows_view(copy@) == rows_view(rows@).take(i as int),
        decreases rows.len() - i,
    {
        let ghost done = copy@;
        let row = rows[i].clone();
        copy.push(row);
        assert(rows_view(copy@) =~= rows_view(done).push(row@));
        assert(rows_view(rows@).take(i + 1) =~= rows_view(rows@).take(i as int).push(rows@[i as int]@));
        i = i + 1;
    }
    assert(rows_view(rows@).take(i as int) =~= rows_view(rows@));
    copy
}

/// Why a row cannot be added.
#[derive(Clone, Copy, Debug, PartialEq, Eq)]
pub enum RowError {
    /// The name is empty.
    EmptyName,
    /// A row with this name exists.
    Duplicate,
    /// The id is not greater than every id of the table, or no id is left.
    Id,
}

/// Whether a row with this id and name can be added at the end of `rows`, and
/// if not, why.
pub open spec fn append_check(rows: Seq<NamedRowView>, id: int, name: Seq<char>) -> Option<
    RowError,
> {
    if name.len() == 0 {
        Some(RowError::EmptyName)
    } else if id_of(rows, name) is Some {
        Some(RowError::Duplicate)
    } else if id < next_id(rows) || id > i64::MAX {
        Some(RowError::Id)
    } else {
        None
    }
}

/// The rows after a row with this id and name was added.
pub open spec fn appended(rows: Seq<NamedRowView>, id: int, name: Seq<char>) -> Seq<NamedRowView> {
    rows.push(NamedRowView { id, name })
}

/// Whether a row named `name` can be added with the next id, and if not, why.
pub open spec fn insert_check(rows: Seq<NamedRowView>, name: Seq<char>) -> Option<RowError> {
    append_check(rows, next_id(rows), name)
}

/// The rows after a row named `name` was added with the next id.
pub open spec fn inserted(rows: Seq<NamedRowView>, name: Seq<char>) -> Seq<NamedRowView> {
    appended(rows, next_id(rows), name)
}

/// Adding a row that passes the check keeps the table in order.
pub proof fn lemma_appended_wf(rows: Seq<NamedRowView>, id: int, name: Seq<char>)
    requires
        rows_wf(rows),
        append_check(rows, id, name) is None,
    ensures
        rows_wf(appended(rows, id, name)),
        id_of(appended(rows, id, name), name) == Some(id),
        forall|other: int| has_id(rows, other) ==> has_id(appended(rows, id, name), other),
        has_id(appended(rows, id, name), id),
{
    lemma_position_of(rows, name);
    let after = appended(rows, id, name);
    assert(after.drop_last() =~= rows);
    assert(after[rows.len() as int].id == id);
    assert forall|i: int, j: int| 0 <= i < j < after.len() implies (#[trigger] after[i]).id < (
    #[trigger] after[j]).id by {
        if j == rows.len() {
            if i < rows.len() - 1 {
                assert(rows[i].id < rows[rows.len() - 1].id);
            }
        }
    }
    assert forall|i: int, j: int| 0 <= i < j < after.len() implies (#[trigger] after[i]).name != (
    #[trigger] after[j]).name by {
        if j == rows.len() {
            assert(rows[i].name != name);
        }
    }
    assert forall|other: int| has_id(rows, other) implies has_id(after, other) by {
        let i = choose|i: int| 0 <= i < rows.len() && (#[trigger] rows[i]).id == other;
        assert(after[i].id == other);
    }
    if rows.len() > 0 {
        assert(rows[rows.len() - 1].id >= 1);
    }
}

/// The id that the next row gets, if one is left.
pub(crate) fn next_row_id(rows: &Vec<NamedRow>) -> (r: Option<i64>)
    requires
        rows_wf(rows_view(rows@)),
    ensures
        match r {
            Some(id) => id == next_id(rows_view(rows@)),
            None => next_id(rows_view(rows@)) > i64::MAX,
        },
{
    if rows.len() == 0 {
        Some(1)
    } else {
        let last = rows[rows.len() - 1].id;
        assert(rows_view(rows@).last() == rows@[rows.len() - 1]@);
        if last == i64::MAX {
            None
        } else {
            assert(rows_view(rows@)[rows.len() - 1].id >= 1);
            Some(last + 1)
        }
    }
}

/// Tells whether a row with this id and name can be added at the end of `rows`.
pub(crate) fn check_append(rows: &Vec<NamedRow>, id: i64, name: &str) -> (r: Option<RowError>)
    requires
        rows_wf(rows_view(rows@)),
    ensures
        r == append_check(rows_view(rows@), id as int, name@),
{
    if name.unicode_len() == 0 {
        return Some(RowError::EmptyName);
    }
    if find_id(rows, name).is_some() {
        return Some(RowError::Duplicate);
    }
    match next_row_id(rows) {
        Some(next) => if id < next {
            Some(RowError::Id)
        } else {
            None
        },
        None => Some(RowError::Id),
    }
}

/// Taking a row out keeps the table in order, and keeps every other row.
pub proof fn lemma_removed_wf(rows: Seq<NamedRowView>, name: Seq<char>)
    requires
        rows_wf(rows),
    ensures
        rows_wf(removed(rows, name)),
        id_of(removed(rows, name), name) is None,
        forall|id: int|
            has_id(rows, id) && id_of(rows, name) != Some(id) ==> has_id(removed(rows, name), id),
{
    lemma_position_of(rows, name);
    let after = removed(rows, name);
    match position_of(rows, name) {
        Some(k) => {
            assert forall|i: int| 0 <= i < after.len() implies (#[trigger] after[i]).name
                != name by {
                if i < k {
                    assert(after[i] == rows[i]);
                } else {
                    assert(after[i] == rows[i + 1]);
                }
            }
            assert forall|id: int|
                has_id(rows, id) && id_of(rows, name) != Some(id) implies has_id(after, id) by {
                let i = choose|i: int| 0 <= i < rows.len() && (#[trigger] rows[i]).id == id;
                if i < k {
                    assert(after[i].id == id);
                } else {
                    assert(after[i - 1].id == id);
                }
            }
            assert forall|i: int, j: int| 0 <= i < j < after.len() implies (#[trigger] after[i]).id
                < (#[trigger] after[j]).id && after[i].name != after[j].name by {
                let a = if i < k {
                    i
                } else {
                    i + 1
                };
                let b = if j < k {
                    j
                } else {
                    j + 1
                };
                assert(after[i] == rows[a]);
                assert(after[j] == rows[b]);
            }
            assert forall|i: int| 0 <= i < after.len() implies 1 <= (#[trigger] after[i]).id
                <= i64::MAX && after[i].name.len() > 0 by {
                let a = if i < k {
                    i
                } else {
                    i + 1
                };
                assert(after[i] == rows[a]);
            }
        },
        None => {},
    }
    lemma_position_of(after, name);
}

/// Takes out the row named `name`, if there is one.
pub(crate) fn remove_row(rows: &mut Vec<NamedRow>, name: &str) -> (found: bool)
    ensures
        found == (id_of(rows_view(old(rows)@), name@) is Some),
        rows_view(final(rows)@) == removed(rows_view(old(rows)@), name@),
{
    match find_position(rows, name) {
        Some(k) => {
            let ghost before = rows@;
            rows.remove(k);
            assert(rows_view(rows@) =~= rows_view(before).remove(k as int));
            true
        },
        None => false,
    }
}

} // verus!
