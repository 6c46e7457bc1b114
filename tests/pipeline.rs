use house_price_predictor::matrix::{labels_of, prepare_training, to_row_major, NumericError};
use house_price_predictor::schema::{feature_columns, find_name, target_column, NUM_FEATURES};
use house_price_predictor::split::{
    split_by_permutation, split_features_target, split_train_test, test_row_count, SplitError,
    TestFraction,
};
use house_price_predictor::table::{SchemaError, Table, TableError};

fn names(list: &[&str]) -> Vec<String> {
    list.iter().map(|s| s.to_string()).collect()
}

fn housing_columns() -> Vec<String> {
    let mut c = feature_columns();
    c.push(target_column());
    c
}

/// A housing table of `n` rows whose cells are `row * 100 + column`.
fn housing_table(n: usize) -> Table<f64> {
    let cols = housing_columns();
    let rows: Vec<Vec<f64>> = (0..n)
        .map(|r| (0..cols.len()).map(|c| (r * 100 + c) as f64).collect())
        .collect();
    Table::new(cols, rows).unwrap()
}

fn id_table(n: usize) -> Table<u64> {
    let rows: Vec<Vec<u64>> = (0..n as u64).map(|r| vec![r]).collect();
    Table::new(names(&["id"]), rows).unwrap()
}

#[test]
fn schema_order_is_fixed() {
    let f = feature_columns();
    assert_eq!(
        f,
        names(&[
            "crim", "zn", "indus", "chas", "nox", "rm", "age", "dis", "rad", "tax", "ptratio", "b",
            "lstat"
        ])
    );
    assert_eq!(f.len(), NUM_FEATURES);
    assert_eq!(target_column(), "medv");
}

#[test]
fn find_name_takes_first_match() {
    let n = names(&["a", "b", "a"]);
    assert_eq!(find_name(&n, &"a".to_string()), Some(0));
    assert_eq!(find_name(&n, &"b".to_string()), Some(1));
    assert_eq!(find_name(&n, &"c".to_string()), None);
}

#[test]
fn ragged_table_is_refused() {
    let r = Table::new(names(&["x", "y"]), vec![vec![1, 2], vec![3], vec![4, 5, 6]]);
    assert_eq!(r.unwrap_err(), TableError::RaggedRow(1));
}

#[test]
fn empty_table_is_accepted() {
    let t: Table<u8> = Table::new(Vec::new(), Vec::new()).unwrap();
    assert_eq!(t.height(), 0);
    assert_eq!(t.width(), 0);
}

#[test]
fn select_columns_follows_requested_order() {
    let t = Table::new(names(&["x", "y", "z"]), vec![vec![1, 2, 3], vec![4, 5, 6]]).unwrap();
    let s = t.select_columns(&names(&["z", "x"])).unwrap();
    assert_eq!(s.columns(), &names(&["z", "x"]));
    assert_eq!(s.rows(), &vec![vec![3, 1], vec![6, 4]]);
    let e = t.select_columns(&names(&["x", "w", "v"])).unwrap_err();
    assert_eq!(e, SchemaError::MissingColumn("w".to_string()));
}

#[test]
fn take_rows_keeps_given_order() {
    let t = id_table(5);
    let s = t.take_rows(&vec![4, 0, 2]);
    assert_eq!(s.rows(), &vec![vec![4], vec![0], vec![2]]);
    assert_eq!(s.columns(), &names(&["id"]));
}

#[test]
fn test_row_count_rounds_down() {
    assert_eq!(test_row_count(506, TestFraction { numer: 1, denom: 5 }), 101);
    assert_eq!(test_row_count(10, TestFraction { numer: 1, denom: 3 }), 3);
    assert_eq!(test_row_count(0, TestFraction { numer: 1, denom: 2 }), 0);
    assert_eq!(
        test_row_count(usize::MAX, TestFraction { numer: u64::MAX - 1, denom: u64::MAX }),
        ((usize::MAX as u128) * ((u64::MAX - 1) as u128) / (u64::MAX as u128)) as usize
    );
}

#[test]
fn split_rejects_fraction_bounds() {
    let t = id_table(10);
    for f in [
        TestFraction { numer: 0, denom: 5 },
        TestFraction { numer: 5, denom: 5 },
        TestFraction { numer: 7, denom: 5 },
        TestFraction { numer: 0, denom: 0 },
    ] {
        assert_eq!(split_train_test(&t, f).unwrap_err(), SplitError::InvalidFraction);
    }
}

#[test]
fn split_partitions_rows() {
    let t = id_table(506);
    let (train, test) = split_train_test(&t, TestFraction { numer: 1, denom: 5 }).unwrap();
    assert_eq!(test.height(), 101);
    assert_eq!(train.height(), 405);
    assert_eq!(test.columns(), t.columns());
    assert_eq!(train.columns(), t.columns());
    let mut seen: Vec<u64> = test.rows().iter().chain(train.rows().iter()).map(|r| r[0]).collect();
    seen.sort();
    assert_eq!(seen, (0..506u64).collect::<Vec<u64>>());
}

#[test]
fn split_shuffles_rows() {
    let t = id_table(200);
    let (_, test) = split_train_test(&t, TestFraction { numer: 1, denom: 2 }).unwrap();
    let first: Vec<Vec<u64>> = (0..100u64).map(|r| vec![r]).collect();
    assert_ne!(test.rows(), &first);
}

#[test]
fn split_by_given_permutation() {
    let t = id_table(5);
    let (train, test) =
        split_by_permutation(&t, TestFraction { numer: 2, denom: 5 }, &vec![3, 1, 4, 0, 2]).unwrap();
    assert_eq!(test.rows(), &vec![vec![3], vec![1]]);
    assert_eq!(train.rows(), &vec![vec![4], vec![0], vec![2]]);
}

#[test]
fn split_features_target_projects_schema() {
    let t = housing_table(3);
    let (x, y) = split_features_target(&t).unwrap();
    assert_eq!(x.columns(), &feature_columns());
    assert_eq!(y.columns(), &vec![target_column()]);
    assert_eq!(x.height(), 3);
    assert_eq!(x.rows()[2][0], 200.0);
    assert_eq!(x.rows()[1][12], 112.0);
    assert_eq!(y.rows(), &vec![vec![13.0], vec![113.0], vec![213.0]]);
}

#[test]
fn split_features_target_reorders_columns() {
    let mut cols = housing_columns();
    cols.reverse();
    let row: Vec<i32> = (0..14).collect();
    let t = Table::new(cols, vec![row]).unwrap();
    let (x, y) = split_features_target(&t).unwrap();
    assert_eq!(x.rows()[0], (1..14).rev().collect::<Vec<i32>>());
    assert_eq!(y.rows()[0], vec![0]);
}

#[test]
fn split_features_target_missing_predictor() {
    let mut cols = housing_columns();
    cols.retain(|c| c != "nox" && c != "lstat");
    let t: Table<f64> = Table::new(cols, Vec::new()).unwrap();
    let e = split_features_target(&t).unwrap_err();
    assert_eq!(e, SchemaError::MissingColumn("nox".to_string()));
}

#[test]
fn split_features_target_missing_target() {
    let t: Table<f64> = Table::new(feature_columns(), Vec::new()).unwrap();
    let e = split_features_target(&t).unwrap_err();
    assert_eq!(e, SchemaError::MissingColumn("medv".to_string()));
}

#[test]
fn row_major_layout() {
    let t = Table::new(names(&["a", "b", "c"]), vec![vec![1, 2, 3], vec![4, 5, 6]]).unwrap();
    let m = to_row_major(&t).unwrap();
    assert_eq!(m.num_rows(), 2);
    assert_eq!(m.num_cols(), 3);
    assert_eq!(m.data(), &vec![1, 2, 3, 4, 5, 6]);
}

#[test]
fn labels_need_one_column() {
    let t = Table::new(names(&["a", "b"]), vec![vec![1, 2]]).unwrap();
    assert_eq!(labels_of(&t).unwrap_err(), NumericError::NotSingleColumn);
    let y = Table::new(names(&["y"]), vec![vec![7], vec![8]]).unwrap();
    assert_eq!(labels_of(&y).unwrap(), vec![7, 8]);
}

#[test]
fn prepare_training_from_split() {
    let t = housing_table(10);
    let (train, test) = split_train_test(&t, TestFraction { numer: 3, denom: 10 }).unwrap();
    let (x_train, y_train) = split_features_target(&train).unwrap();
    let (x_test, y_test) = split_features_target(&test).unwrap();
    let set = prepare_training(&x_train, &y_train, &x_test, &y_test).unwrap();
    assert_eq!(set.train_features.num_rows(), 7);
    assert_eq!(set.test_features.num_rows(), 3);
    assert_eq!(set.train_features.num_cols(), 13);
    assert_eq!(set.train_labels.len(), 7);
    for (r, label) in set.test_labels.iter().enumerate() {
        assert_eq!(set.test_features.data()[r * 13] + 13.0, *label);
    }
}

#[test]
fn prepare_training_shape_errors() {
    let x = Table::new(names(&["a", "b"]), vec![vec![1, 2], vec![3, 4]]).unwrap();
    let y = Table::new(names(&["y"]), vec![vec![1], vec![2]]).unwrap();
    let y_short = Table::new(names(&["y"]), vec![vec![1]]).unwrap();
    let y_wide = Table::new(names(&["y", "z"]), vec![vec![1, 1], vec![2, 2]]).unwrap();
    let x_narrow = Table::new(names(&["a"]), vec![vec![1], vec![3]]).unwrap();
    assert_eq!(
        prepare_training(&x, &y_wide, &x, &y).unwrap_err(),
        NumericError::NotSingleColumn
    );
    assert_eq!(
        prepare_training(&x, &y, &x, &y_short).unwrap_err(),
        NumericError::LabelCountMismatch
    );
    assert_eq!(
        prepare_training(&x, &y, &x_narrow, &y).unwrap_err(),
        NumericError::WidthMismatch
    );
    assert!(prepare_training(&x, &y, &x, &y).is_ok());
}
