//! An in-memory table of named columns, stored row by row.

use vstd::prelude::*;

use crate::schema::{find_name, views_of};

verus! {

/// A table that could not be built: the row at this position does not have
/// one cell per column.
#[derive(Debug, PartialEq, Eq)]
pub enum TableError {
    RaggedRow(usize),
}

/// A column that a projection asked for is not in the table.
#[derive(Debug, PartialEq, Eq)]
pub enum SchemaError {
    MissingColumn(String),
}

/// Every row has exactly one cell per column.
pub open spec fn is_rectangular<T>(names: Seq<Seq<char>>, cells: Seq<Seq<T>>) -> bool {
    forall|i: int| 0 <= i < cells.len() ==> #[trigger] cells[i].len() == names.len()
}

/// The views of a list of rows.
pub open spec fn row_views<T>(rows: Seq<Vec<T>>) -> Seq<Seq<T>> {
    rows.map_values(|r: Vec<T>| r@)
}

/// The rows at the given positions, in the order of the positions.
pub open spec fn rows_at<T>(cells: Seq<Seq<T>>, idx: Seq<usize>) -> Seq<Seq<T>> {
    idx.map_values(|i: usize| cells[i as int])
}

/// Position of the first column with the given name.
pub open spec fn column_position(names: Seq<Seq<char>>, name: Seq<char>) -> int {
    names.index_of_first(name)->Some_0
}

/// Every wanted name is the name of some column.
pub open spec fn all_present(names: Seq<Seq<char>>, wanted: Seq<Seq<char>>) -> bool {
    forall|k: int| 0 <= k < wanted.len() ==> names.contains(#[trigger] wanted[k])
}

/// Each row cut down to the wanted columns, in the order they are wanted.
pub open spec fn project<T>(names: Seq<Seq<char>>, cells: Seq<Seq<T>>, wanted: Seq<Seq<char>>) -> Seq<
    Seq<T>,
> {
    cells.map_values(
        |row: Seq<T>| wanted.map_values(|w: Seq<char>| row[column_position(names, w)]),
    )
}

/// The first wanted name that no column carries is at position `k`.
pub open spec fn first_missing(names: Seq<Seq<char>>, wanted: Seq<Seq<char>>, k: int) -> bool {
    &&& 0 <= k < wanted.len()
    &&& !names.contains(wanted[k])
    &&& forall|j: int| 0 <= j < k ==> names.contains(#[trigger] wanted[j])
}

proof fn lemma_found(names: Seq<Seq<char>>, n: Seq<char>, p: int)
    requires
        names.index_of_first(n) == Some(p),
    ensures
        0 <= p < names.len(),
        names[p] == n,
        names.contains(n),
        column_position(names, n) == p,
{
    names.index_of_first_ensures(n);
}

proof fn lemma_not_found(names: Seq<Seq<char>>, n: Seq<char>)
    requires
        names.index_of_first(n) is None,
    ensures
        !names.contains(n),
{
    names.index_of_first_ensures(n);
}

/// A table: named columns and rows with one cell per column.
#[derive(Debug)]
pub struct Table<T> {
    columns: Vec<String>,
    rows: Vec<Vec<T>>,
}

/// A copy of a list of names.
fn copy_names(names: &Vec<String>) -> (r: Vec<String>)
    ensures
        r@ == names@,
{
    let mut r: Vec<String> = Vec::new();
    let mut i: usize = 0;
    while i < names.len()
        invariant
            0 <= i <= names@.len(),
            r@ == names@.subrange(0, i as int),
        decreases names@.len() - i,
    {
        r.push(names[i].clone());
        i = i + 1;
    }
    assert(r@ =~= names@);
    r
}

/// A copy of a row.
fn copy_row<T: Copy>(row: &Vec<T>) -> (r: Vec<T>)
    ensures
        r@ == row@,
{
    let mut r: Vec<T> = Vec::new();
    let mut i: usize = 0;
    while i < row.len()
        invariant
            0 <= i <= row@.len(),
            r@ == row@.subrange(0, i as int),
        decreases row@.len() - i,
    {
        r.push(row[i]);
        i = i + 1;
    }
    assert(r@ =~= row@);
    r
}

impl<T> Table<T> {
    /// The column names.
    pub closed spec fn names(&self) -> Seq<Seq<char>> {
        views_of(self.columns@)
    }

    /// The cells, row by row.
    pub closed spec fn cells(&self) -> Seq<Seq<T>> {
        row_views(self.rows@)
    }

    #[verifier::type_invariant]
    spec fn rectangular(&self) -> bool {
        is_rectangular(self.names(), self.cells())
    }
}

impl<T: Copy> Table<T> {
    /// Builds a table from column names and rows; fails on the first row
    /// whose width differs from the number of columns.
    pub fn new(columns: Vec<String>, rows: Vec<Vec<T>>) -> (r: Result<Self, TableError>)
        ensures
            r is Ok <==> is_rectangular(views_of(columns@), row_views(rows@)),
            r matches Ok(t) ==> t.names() == views_of(columns@) && t.cells() == row_views(rows@),
            r matches Err(TableError::RaggedRow(i)) ==> {
                &&& 0 <= i < rows@.len()
                &&& rows@[i as int]@.len() != columns@.len()
                &&& forall|j: int| 0 <= j < i ==> #[trigger] rows@[j]@.len() == columns@.len()
            },
    {
        let mut i: usize = 0;
        while i < rows.len()
            invariant
                0 <= i <= rows@.len(),
                forall|j: int| 0 <= j < i ==> #[trigger] rows@[j]@.len() == columns@.len(),
            decreases rows@.len() - i,
        {
            if rows[i].len() != columns.len() {
                proof {
                    assert(row_views(rows@)[i as int].len() != views_of(columns@).len());
                }
                return Err(TableError::RaggedRow(i));
            }
            i = i + 1;
        }
        Ok(Table { columns, rows })
    }

    /// Number of rows.
    pub fn height(&self) -> (r: usize)
        ensures
            r == self.cells().len(),
    {
        self.rows.len()
    }

    /// Number of columns.
    pub fn width(&self) -> (r: usize)
        ensures
            r == self.names().len(),
    {
        self.columns.len()
    }

    /// The column names.
    pub fn columns(&self) -> (r: &Vec<String>)
        ensures
            views_of(r@) == self.names(),
    {
        &self.columns
    }

    /// The rows.
    pub fn rows(&self) -> (r: &Vec<Vec<T>>)
        ensures
            row_views(r@) == self.cells(),
            is_rectangular(self.names(), self.cells()),
    {
        proof {
            use_type_invariant(self);
        }
        &self.rows
    }

    /// The rows at the given positions, in that order, under the same columns.
    pub fn take_rows(&self, indices: &Vec<usize>) -> (r: Table<T>)
        requires
            forall|k: int| 0 <= k < indices@.len() ==> #[trigger] indices@[k] < self.cells().len(),
        ensures
            r.names() == self.names(),
            r.cells() == rows_at(self.cells(), indices@),
    {
        proof {
            use_type_invariant(self);
        }
        let ghost cells = self.cells();
        let mut out: Vec<Vec<T>> = Vec::new();
        let mut k: usize = 0;
        while k < indices.len()
            invariant
                0 <= k <= indices@.len(),
                cells == self.cells(),
                is_rectangular(self.names(), cells),
                forall|m: int| 0 <= m < indices@.len() ==> #[trigger] indices@[m] < cells.len(),
                out@.len() == k,
                forall|m: int| 0 <= m < k ==> #[trigger] out@[m]@ == cells[indices@[m] as int],
            decreases indices@.len() - k,
        {
            let row = copy_row(&self.rows[indices[k]]);
            proof {
                assert(row@ == cells[indices@[k as int] as int]);
            }
            out.push(row);
            k = k + 1;
        }
        proof {
            assert(row_views(out@) =~= rows_at(cells, indices@));
            assert(is_rectangular(self.names(), row_views(out@)));
        }
        Table { columns: copy_names(&self.columns), rows: out }
    }

    /// The table cut down to the wanted columns, in the order they are
    /// wanted; fails on the first wanted name that no column carries.
    pub fn select_columns(&self, wanted: &Vec<String>) -> (r: Result<Table<T>, SchemaError>)
        ensures
            r is Ok <==> all_present(self.names(), views_of(wanted@)),
            r matches Ok(t) ==> {
                &&& t.names() == views_of(wanted@)
                &&& t.cells() == project(self.names(), self.cells(), views_of(wanted@))
            },
            r matches Err(SchemaError::MissingColumn(n)) ==> exists|k: int|
                first_missing(self.names(), views_of(wanted@), k) && n@ == #[trigger] wanted@[k]@,
    {
        proof {
            use_type_invariant(self);
        }
        let ghost names = self.names();
        let ghost cells = self.cells();
        let ghost w = views_of(wanted@);
        let mut positions: Vec<usize> = Vec::new();
        let mut k: usize = 0;
        while k < wanted.len()
            invariant
                0 <= k <= wanted@.len(),
                names == self.names(),
                w == views_of(wanted@),
                positions@.len() == k,
                forall|m: int|
                    0 <= m < k ==> {
                        &&& names.contains(#[trigger] w[m])
                        &&& positions@[m] as int == column_position(names, w[m])
                    },
                forall|m: int| 0 <= m < k ==> #[trigger] positions@[m] < names.len(),
            decreases wanted@.len() - k,
        {
            match find_name(&self.columns, &wanted[k]) {
                Some(p) => {
                    proof {
                        lemma_found(names, w[k as int], p as int);
                    }
                    positions.push(p);
                },
                None => {
                    let n = wanted[k].clone();
                    proof {
                        lemma_not_found(names, w[k as int]);
                        assert(first_missing(names, w, k as int));
                        assert(!all_present(names, w));
                    }
                    return Err(SchemaError::MissingColumn(n));
                },
            }
            k = k + 1;
        }
        let mut out: Vec<Vec<T>> = Vec::new();
        let mut i: usize = 0;
        while i < self.rows.len()
            invariant
                0 <= i <= cells.len(),
                names == self.names(),
                cells == self.cells(),
                w == views_of(wanted@),
                is_rectangular(names, cells),
                positions@.len() == w.len(),
                forall|m: int|
                    0 <= m < w.len() ==> {
                        &&& names.contains(#[trigger] w[m])
                        &&& positions@[m] as int == column_position(names, w[m])
                    },
                forall|m: int| 0 <= m < w.len() ==> #[trigger] positions@[m] < names.len(),
                out@.len() == i,
                forall|m: int| 0 <= m < i ==> #[trigger] out@[m]@ == project(names, cells, w)[m],
            decreases cells.len() - i,
        {
            let row = &self.rows[i];
            assert(row@ == cells[i as int]);
            let mut picked: Vec<T> = Vec::new();
            let mut j: usize = 0;
            while j < positions.len()
                invariant
                    0 <= j <= positions@.len(),
                    positions@.len() == w.len(),
                    row@.len() == names.len(),
                    forall|m: int| 0 <= m < w.len() ==> #[trigger] positions@[m] < names.len(),
                    picked@.len() == j,
                    forall|q: int| 0 <= q < j ==> #[trigger] picked@[q] == row@[positions@[q] as int],
                decreases positions@.len() - j,
            {
                picked.push(row[positions[j]]);
                j = j + 1;
            }
            proof {
                assert(picked@ =~= project(names, cells, w)[i as int]);
            }
            out.push(picked);
            i = i + 1;
        }
        proof {
            assert(row_views(out@) =~= project(names, cells, w));
            assert(is_rectangular(w, row_views(out@)));
        }
        Ok(Table { columns: copy_names(wanted), rows: out })
    }
}

} // verus!
