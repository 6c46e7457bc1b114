//! Dense row-major matrices and the training data handed to the boosting
//! engine: feature matrices with their labels.

use vstd::prelude::*;

use crate::table::{is_rectangular, Table};

verus! {

/// Why tables could not be turned into training data.
#[derive(Debug, PartialEq, Eq)]
pub enum NumericError {
    /// The matrix would hold more entries than a `usize` counts.
    TooLarge,
    /// A target table does not have exactly one column.
    NotSingleColumn,
    /// A target table does not have one row per feature row.
    LabelCountMismatch,
    /// The test features do not have as many columns as the train features.
    WidthMismatch,
}

/// `data` lays out `cells` (each of `width` entries) row after row.
pub open spec fn is_row_major<T>(data: Seq<T>, cells: Seq<Seq<T>>, width: nat) -> bool {
    &&& data.len() == cells.len() * width
    &&& forall|r: int, c: int|
        0 <= r < cells.len() && 0 <= c < width ==> #[trigger] data[r * width + c] == cells[r][c]
}

/// The first entry of each row.
pub open spec fn first_column<T>(cells: Seq<Seq<T>>) -> Seq<T> {
    cells.map_values(|row: Seq<T>| row[0])
}

/// A matrix of `num_rows` rows and `num_cols` columns, stored row after row.
#[derive(Debug)]
pub struct DenseMatrix<T> {
    data: Vec<T>,
    num_rows: usize,
    num_cols: usize,
}

impl<T> DenseMatrix<T> {
    /// The entries, row after row.
    pub closed spec fn entries(&self) -> Seq<T> {
        self.data@
    }

    /// Number of rows.
    pub closed spec fn rows_spec(&self) -> nat {
        self.num_rows as nat
    }

    /// Number of columns.
    pub closed spec fn cols_spec(&self) -> nat {
        self.num_cols as nat
    }

    #[verifier::type_invariant]
    spec fn shape_holds(&self) -> bool {
        self.data@.len() == self.num_rows * self.num_cols
    }

    /// The entries, row after row.
    pub fn data(&self) -> (r: &Vec<T>)
        ensures
            r@ == self.entries(),
            r@.len() == self.rows_spec() * self.cols_spec(),
    {
        proof {
            use_type_invariant(self);
        }
        &self.data
    }

    /// Number of rows.
    pub fn num_rows(&self) -> (r: usize)
        ensures
            r == self.rows_spec(),
    {
        self.num_rows
    }

    /// Number of columns.
    pub fn num_cols(&self) -> (r: usize)
        ensures
            r == self.cols_spec(),
    {
        self.num_cols
    }

    /// A matrix of one row.
    pub fn single_row(row: Vec<T>) -> (r: DenseMatrix<T>)
        ensures
            r.rows_spec() == 1,
            r.cols_spec() == row@.len(),
            r.entries() == row@,
    {
        let n = row.len();
        DenseMatrix { data: row, num_rows: 1, num_cols: n }
    }
}

/// The cells of a table laid out row after row; fails when the count of
/// entries does not fit a `usize`.
pub fn to_row_major<T: Copy>(table: &Table<T>) -> (r: Result<DenseMatrix<T>, NumericError>)
    ensures
        r is Ok <==> table.cells().len() * table.names().len() <= usize::MAX,
        r matches Ok(m) ==> {
            &&& m.rows_spec() == table.cells().len()
            &&& m.cols_spec() == table.names().len()
            &&& is_row_major(m.entries(), table.cells(), table.names().len())
        },
        r matches Err(e) ==> e == NumericError::TooLarge,
{
    let h = table.height();
    let w = table.width();
    let rows = table.rows();
    let ghost cells = table.cells();
    let total = match h.checked_mul(w) {
        Some(t) => t,
        None => {
            return Err(NumericError::TooLarge);
        },
    };
    let mut data: Vec<T> = Vec::new();
    let mut i: usize = 0;
    while i < h
        invariant
            0 <= i <= h,
            h == cells.len(),
            w == table.names().len(),
            h * w == total,
            cells == table.cells(),
            is_rectangular(table.names(), cells),
            forall|k: int| 0 <= k < h ==> (#[trigger] rows@[k])@ == cells[k],
            rows@.len() == h,
            data@.len() == i * w,
            forall|r: int, c: int|
                0 <= r < i && 0 <= c < w ==> #[trigger] data@[r * w + c] == cells[r][c],
        decreases h - i,
    {
        let row = &rows[i];
        assert(row@ == cells[i as int]);
        assert(row@.len() == w);
        let mut j: usize = 0;
        proof {
            assert((i + 1) * w <= h * w) by (nonlinear_arith)
                requires
                    i < h,
            ;
        }
        while j < w
            invariant
                0 <= j <= w,
                i < h,
                (i + 1) * w <= total,
                row@ == cells[i as int],
                row@.len() == w,
                data@.len() == i * w + j,
                forall|r: int, c: int|
                    0 <= r < i && 0 <= c < w ==> #[trigger] data@[r * w + c] == cells[r][c],
                forall|c: int| 0 <= c < j ==> #[trigger] data@[i * w + c] == cells[i as int][c],
            decreases w - j,
        {
            proof {
                assert(i * w + j < (i + 1) * w) by (nonlinear_arith)
                    requires
                        j < w,
                ;
            }
            data.push(row[j]);
            proof {
                assert forall|r: int, c: int|
                    0 <= r < i && 0 <= c < w implies #[trigger] data@[r * w + c] == cells[r][c] by {
                    assert(r * w + c < i * w) by (nonlinear_arith)
                        requires
                            r < i,
                            c < w,
                    ;
                }
            }
            j = j + 1;
        }
        proof {
            assert forall|r: int, c: int|
                0 <= r < i + 1 && 0 <= c < w implies #[trigger] data@[r * w + c] == cells[r][c] by {
                if r == i {
                    assert(data@[i * w + c] == cells[i as int][c]);
                }
            }
            assert(data@.len() == (i + 1) * w) by (nonlinear_arith)
                requires
                    data@.len() == i * w + w,
            ;
        }
        i = i + 1;
    }
    Ok(DenseMatrix { data, num_rows: h, num_cols: w })
}

/// The single column of a target table, one label per row; fails unless
/// the table has exactly one column.
pub fn labels_of<T: Copy>(target: &Table<T>) -> (r: Result<Vec<T>, NumericError>)
    ensures
        r is Ok <==> target.names().len() == 1,
        r matches Ok(v) ==> v@ == first_column(target.cells()),
        r matches Err(e) ==> e == NumericError::NotSingleColumn,
{
    if target.width() != 1 {
        return Err(NumericError::NotSingleColumn);
    }
    let rows = target.rows();
    let ghost cells = target.cells();
    let mut out: Vec<T> = Vec::new();
    let mut i: usize = 0;
    while i < rows.len()
        invariant
            0 <= i <= rows@.len(),
            rows@.len() == cells.len(),
            cells == target.cells(),
            is_rectangular(target.names(), cells),
            target.names().len() == 1,
            forall|k: int| 0 <= k < rows@.len() ==> (#[trigger] rows@[k])@ == cells[k],
            out@ == first_column(cells).take(i as int),
        decreases rows@.len() - i,
    {
        assert(rows@[i as int]@.len() == 1);
        out.push(rows[i][0]);
        i = i + 1;
        assert(out@ =~= first_column(cells).take(i as int));
    }
    assert(out@ =~= first_column(cells));
    Ok(out)
}

/// Feature matrices and labels for training and for evaluation.
#[derive(Debug)]
pub struct TrainingSet<T> {
    pub train_features: DenseMatrix<T>,
    pub train_labels: Vec<T>,
    pub test_features: DenseMatrix<T>,
    pub test_labels: Vec<T>,
}

/// The training data described by four tables: `x_train` and `x_test` laid
/// out row after row, `y_train` and `y_test` as label vectors.
pub open spec fn describes<T>(
    set: TrainingSet<T>,
    x_train: Table<T>,
    y_train: Table<T>,
    x_test: Table<T>,
    y_test: Table<T>,
) -> bool {
    &&& set.train_features.rows_spec() == x_train.cells().len()
    &&& set.train_features.cols_spec() == x_train.names().len()
    &&& is_row_major(set.train_features.entries(), x_train.cells(), x_train.names().len())
    &&& set.test_features.rows_spec() == x_test.cells().len()
    &&& set.test_features.cols_spec() == x_test.names().len()
    &&& is_row_major(set.test_features.entries(), x_test.cells(), x_test.names().len())
    &&& set.train_labels@ == first_column(y_train.cells())
    &&& set.test_labels@ == first_column(y_test.cells())
}

/// The first reason, in the order listed, why four tables do not make
/// training data: a target table without exactly one column, a target table
/// with another row count than its features, test features of another width
/// than the train features, a matrix too large to count.
pub open spec fn training_error<T>(
    x_train: Table<T>,
    y_train: Table<T>,
    x_test: Table<T>,
    y_test: Table<T>,
) -> Option<NumericError> {
    if y_train.names().len() != 1 || y_test.names().len() != 1 {
        Some(NumericError::NotSingleColumn)
    } else if y_train.cells().len() != x_train.cells().len() || y_test.cells().len()
        != x_test.cells().len() {
        Some(NumericError::LabelCountMismatch)
    } else if x_test.names().len() != x_train.names().len() {
        Some(NumericError::WidthMismatch)
    } else if x_train.cells().len() * x_train.names().len() > usize::MAX || x_test.cells().len()
        * x_test.names().len() > usize::MAX {
        Some(NumericError::TooLarge)
    } else {
        None
    }
}

/// Turns feature and target tables into training data; fails with the first
/// of: a target table without exactly one column, a target table with another
/// row count than its features, test features of another width than the
/// train features, a matrix too large to count.
pub fn prepare_training<T: Copy>(
    x_train: &Table<T>,
    y_train: &Table<T>,
    x_test: &Table<T>,
    y_test: &Table<T>,
) -> (r: Result<TrainingSet<T>, NumericError>)
    ensures
        r is Ok <==> training_error(*x_train, *y_train, *x_test, *y_test) is None,
        r matches Ok(set) ==> describes(set, *x_train, *y_train, *x_test, *y_test),
        r matches Err(e) ==> training_error(*x_train, *y_train, *x_test, *y_test) == Some(e),
{
    let train_labels = match labels_of(y_train) {
        Ok(v) => v,
        Err(e) => {
            return Err(e);
        },
    };
    let test_labels = match labels_of(y_test) {
        Ok(v) => v,
        Err(e) => {
            return Err(e);
        },
    };
    if train_labels.len() != x_train.height() || test_labels.len() != x_test.height() {
        return Err(NumericError::LabelCountMismatch);
    }
    if x_test.width() != x_train.width() {
        return Err(NumericError::WidthMismatch);
    }
    let train_features = match to_row_major(x_train) {
        Ok(m) => m,
        Err(e) => {
            return Err(e);
        },
    };
    let test_features = match to_row_major(x_test) {
        Ok(m) => m,
        Err(e) => {
            return Err(e);
        },
    };
    Ok(TrainingSet { train_features, train_labels, test_features, test_labels })
}

} // verus!
