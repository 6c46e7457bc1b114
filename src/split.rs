//! Random train/test partition of a table's rows, and the projection of a
//! table into its predictor columns and its target column.

use vstd::prelude::*;
use vstd::seq_lib::{group_to_multiset_ensures, seq_to_set_is_finite};
use vstd::set_lib::{lemma_int_range, lemma_subset_equality, set_int_range};

use rand::seq::SliceRandom;

use crate::schema::{feature_columns, feature_names, target_column, target_name, views_of};
use crate::table::{all_present, first_missing, project, rows_at, SchemaError, Table};

verus! {

broadcast use group_to_multiset_ensures;

/// The share of rows that goes to the test set, as `numer / denom`.
#[derive(Debug, Clone, Copy, PartialEq, Eq)]
pub struct TestFraction {
    pub numer: u64,
    pub denom: u64,
}

/// The test fraction is not strictly between zero and one.
#[derive(Debug, PartialEq, Eq)]
pub enum SplitError {
    InvalidFraction,
}

/// `0 < numer / denom < 1`.
pub open spec fn valid_fraction(f: TestFraction) -> bool {
    0 < f.numer && f.numer < f.denom
}

/// `floor(numer / denom * n)`: the number of test rows out of `n`.
pub open spec fn test_size(n: nat, f: TestFraction) -> nat
    recommends
        valid_fraction(f),
{
    ((f.numer as int * n as int) / (f.denom as int)) as nat
}

/// `p` lists each of `0 .. n` exactly once.
pub open spec fn is_permutation(p: Seq<usize>, n: nat) -> bool {
    &&& p.len() == n
    &&& p.no_duplicates()
    &&& forall|i: int| 0 <= i < p.len() ==> #[trigger] p[i] < n
}

/// The positions `0 .. n` as a set.
pub open spec fn positions_below(n: nat) -> Set<usize> {
    Set::new(|i: usize| i < n)
}

/// `test` holds the rows at the first `k` positions of `p`, `train` the rest.
pub open spec fn split_by<T>(
    cells: Seq<Seq<T>>,
    p: Seq<usize>,
    k: nat,
    test: Seq<Seq<T>>,
    train: Seq<Seq<T>>,
) -> bool {
    &&& k <= p.len()
    &&& test == rows_at(cells, p.take(k as int))
    &&& train == rows_at(cells, p.skip(k as int))
}

/// Test rows in `numer / denom * n`, rounded down; never more than `n`.
pub fn test_row_count(n: usize, f: TestFraction) -> (r: usize)
    requires
        valid_fraction(f),
    ensures
        r == test_size(n as nat, f),
        r <= n,
{
    assert((f.numer as u128) * (n as u128) <= u128::MAX) by (nonlinear_arith)
        requires
            f.numer <= u64::MAX,
            n <= u64::MAX,
    ;
    let prod: u128 = (f.numer as u128) * (n as u128);
    let q: u128 = prod / (f.denom as u128);
    proof {
        let a = f.numer as int;
        let b = f.denom as int;
        let m = n as int;
        assert(0 <= a * m) by (nonlinear_arith)
            requires
                0 < a,
                0 <= m,
        ;
        assert(a * m <= b * m) by (nonlinear_arith)
            requires
                a < b,
                0 <= m,
        ;
        assert((a * m) / b <= m) by (nonlinear_arith)
            requires
                0 <= a * m <= b * m,
                0 < b,
        ;
    }
    q as usize
}

/// The positions `0 .. n` in increasing order.
fn identity_positions(n: usize) -> (r: Vec<usize>)
    ensures
        r@ == Seq::new(n as nat, |i: int| i as usize),
{
    let mut r: Vec<usize> = Vec::new();
    let mut i: usize = 0;
    while i < n
        invariant
            0 <= i <= n,
            r@ == Seq::new(i as nat, |j: int| j as usize),
        decreases n - i,
    {
        r.push(i);
        i = i + 1;
        assert(r@ =~= Seq::new(i as nat, |j: int| j as usize));
    }
    r
}

/// Relies on rand's `SliceRandom::shuffle` with the thread-local generator:
/// it only swaps entries, so the same entries come back in some order.
#[verifier::external_body]
fn shuffle_positions(v: &mut Vec<usize>)
    ensures
        final(v)@.to_multiset() == old(v)@.to_multiset(),
{
    v.shuffle(&mut rand::thread_rng());
}

/// A reordering of `0 .. n` is a permutation of `0 .. n`.
proof fn lemma_reordered_identity(p: Seq<usize>, n: nat)
    requires
        n <= usize::MAX,
        p.to_multiset() == Seq::new(n, |i: int| i as usize).to_multiset(),
    ensures
        is_permutation(p, n),
{
    let id = Seq::new(n, |i: int| i as usize);
    assert forall|a: int, b: int| 0 <= a < id.len() && 0 <= b < id.len() && a != b implies id[a]
        != id[b] by {
        assert(id[a] as int == a);
        assert(id[b] as int == b);
    }
    assert(id.no_duplicates());
    id.lemma_multiset_has_no_duplicates();
    p.lemma_multiset_has_no_duplicates_conv();
    assert(p.len() == p.to_multiset().len());
    assert(id.len() == id.to_multiset().len());
    assert forall|i: int| 0 <= i < p.len() implies #[trigger] p[i] < n by {
        assert(p.contains(p[i]));
        assert(p.to_multiset().count(p[i]) > 0);
        assert(id.to_multiset().count(p[i]) > 0);
        assert(id.contains(p[i]));
        let j = choose|j: int| 0 <= j < id.len() && id[j] == p[i];
        assert(id[j] as int == j);
    }
}

/// Splits the rows by a given permutation of the row positions into a train
/// table and a test table: the first `test_size` positions go to the test
/// table, the rest to the train table.
pub fn split_by_permutation<T: Copy>(
    table: &Table<T>,
    fraction: TestFraction,
    perm: &Vec<usize>,
) -> (r: Result<(Table<T>, Table<T>), SplitError>)
    requires
        is_permutation(perm@, table.cells().len()),
    ensures
        r is Err <==> !valid_fraction(fraction),
        r matches Ok((train, test)) ==> {
            &&& test.names() == table.names()
            &&& train.names() == table.names()
            &&& split_by(
                table.cells(),
                perm@,
                test_size(table.cells().len(), fraction),
                test.cells(),
                train.cells(),
            )
        },
{
    if fraction.numer == 0 || fraction.numer >= fraction.denom {
        return Err(SplitError::InvalidFraction);
    }
    let n = table.height();
    let k = test_row_count(n, fraction);
    let mut test_positions: Vec<usize> = Vec::new();
    let mut train_positions: Vec<usize> = Vec::new();
    let mut i: usize = 0;
    while i < n
        invariant
            0 <= k <= n,
            n == perm@.len(),
            0 <= i <= n,
            i <= k ==> test_positions@ == perm@.subrange(0, i as int),
            i <= k ==> train_positions@.len() == 0,
            i > k ==> test_positions@ == perm@.subrange(0, k as int),
            i > k ==> train_positions@ == perm@.subrange(k as int, i as int),
        decreases n - i,
    {
        if i < k {
            test_positions.push(perm[i]);
            assert(test_positions@ =~= perm@.subrange(0, i + 1));
        } else {
            train_positions.push(perm[i]);
            assert(train_positions@ =~= perm@.subrange(k as int, i + 1));
        }
        i = i + 1;
    }
    proof {
        assert(test_positions@ =~= perm@.take(k as int));
        assert(train_positions@ =~= perm@.skip(k as int));
    }
    let test = table.take_rows(&test_positions);
    let train = table.take_rows(&train_positions);
    Ok((train, test))
}

/// Splits the rows at random into a train table and a test table of
/// `floor(fraction * n)` rows, the train table holding the others; fails unless
/// `0 < fraction < 1`.
pub fn split_train_test<T: Copy>(table: &Table<T>, fraction: TestFraction) -> (r: Result<
    (Table<T>, Table<T>),
    SplitError,
>)
    ensures
        r is Err <==> !valid_fraction(fraction),
        r matches Ok((train, test)) ==> {
            &&& test.names() == table.names()
            &&& train.names() == table.names()
            &&& test.cells().len() == test_size(table.cells().len(), fraction)
            &&& test.cells().len() + train.cells().len() == table.cells().len()
            &&& exists|p: Seq<usize>|
                #![trigger is_permutation(p, table.cells().len())]
                is_permutation(p, table.cells().len()) && split_by(
                    table.cells(),
                    p,
                    test_size(table.cells().len(), fraction),
                    test.cells(),
                    train.cells(),
                )
        },
{
    let n = table.height();
    let mut perm = identity_positions(n);
    shuffle_positions(&mut perm);
    proof {
        lemma_reordered_identity(perm@, n as nat);
    }
    let r = split_by_permutation(table, fraction, &perm);
    proof {
        if r is Ok {
            assert(is_permutation(perm@, table.cells().len()));
        }
    }
    r
}

/// Every required column: the predictors in model order, then the target.
pub open spec fn required_names() -> Seq<Seq<char>> {
    feature_names().push(target_name())
}

/// Projects a table into its predictor columns, in model order, and its
/// target column; fails on the first required column that is missing,
/// predictors first.
pub fn split_features_target<T: Copy>(table: &Table<T>) -> (r: Result<
    (Table<T>, Table<T>),
    SchemaError,
>)
    ensures
        r is Ok <==> all_present(table.names(), required_names()),
        r matches Ok((x, y)) ==> {
            &&& x.names() == feature_names()
            &&& x.cells() == project(table.names(), table.cells(), feature_names())
            &&& y.names() == seq![target_name()]
            &&& y.cells() == project(table.names(), table.cells(), seq![target_name()])
        },
        r matches Err(SchemaError::MissingColumn(n)) ==> exists|k: int|
            first_missing(table.names(), required_names(), k) && n@ == #[trigger] required_names()[k],
{
    let names = Ghost(table.names());
    let features = feature_columns();
    let x = match table.select_columns(&features) {
        Ok(x) => x,
        Err(e) => {
            proof {
                let SchemaError::MissingColumn(n) = e;
                let k = choose|k: int|
                    first_missing(names@, feature_names(), k) && n@ == #[trigger] views_of(
                        features@,
                    )[k];
                assert(first_missing(names@, required_names(), k));
                assert(n@ == required_names()[k]);
                assert(!all_present(names@, required_names()));
            }
            return Err(e);
        },
    };
    let mut target: Vec<String> = Vec::new();
    target.push(target_column());
    proof {
        assert(views_of(target@) =~= seq![target_name()]);
    }
    let y = match table.select_columns(&target) {
        Ok(y) => y,
        Err(e) => {
            proof {
                assert(first_missing(names@, seq![target_name()], 0));
                assert(first_missing(names@, required_names(), 13));
            }
            return Err(e);
        },
    };
    proof {
        assert forall|k: int| 0 <= k < required_names().len() implies names@.contains(
            #[trigger] required_names()[k],
        ) by {
            if k < 13 {
                assert(required_names()[k] == feature_names()[k]);
            } else {
                assert(required_names()[k] == seq![target_name()][0]);
            }
        }
    }
    Ok((x, y))
}

/// The test and train positions of a split are disjoint, together they are
/// every row position, and their counts add up to the row count.
pub proof fn lemma_split_positions_partition(p: Seq<usize>, n: nat, k: nat)
    requires
        is_permutation(p, n),
        k <= n,
    ensures
        p.take(k as int).to_set().disjoint(p.skip(k as int).to_set()),
        p.take(k as int).to_set().union(p.skip(k as int).to_set()) == positions_below(n),
        p.take(k as int).len() + p.skip(k as int).len() == n,
{
    let t = p.take(k as int);
    let s = p.skip(k as int);
    assert forall|x: usize| t.to_set().contains(x) implies !s.to_set().contains(x) by {
        let a = choose|a: int| 0 <= a < t.len() && t[a] == x;
        if s.contains(x) {
            let b = choose|b: int| 0 <= b < s.len() && s[b] == x;
            assert(p[a] == p[b + k]);
        }
    }
    let q = p.map_values(|x: usize| x as int);
    assert forall|a: int, b: int| 0 <= a < q.len() && 0 <= b < q.len() && a != b implies q[a]
        != q[b] by {
        assert(p[a] != p[b]);
    }
    assert(q.no_duplicates());
    q.unique_seq_to_set();
    lemma_int_range(0, n as int);
    assert forall|x: int| q.to_set().contains(x) implies set_int_range(0, n as int).contains(x) by {
        let i = choose|i: int| 0 <= i < q.len() && q[i] == x;
        assert(p[i] < n);
    }
    assert(q.to_set().subset_of(set_int_range(0, n as int)));
    seq_to_set_is_finite(q);
    lemma_subset_equality(q.to_set(), set_int_range(0, n as int));
    assert forall|x: usize| #[trigger] positions_below(n).contains(x) implies t.to_set().union(
        s.to_set(),
    ).contains(x) by {
        assert(set_int_range(0, n as int).contains(x as int));
        assert(q.to_set().contains(x as int));
        let i = choose|i: int| 0 <= i < q.len() && q[i] == x as int;
        assert(p[i] == x);
        if i < k {
            assert(t[i] == x);
            assert(t.contains(x));
        } else {
            assert(s[i - k] == x);
            assert(s.contains(x));
        }
    }
    assert forall|x: usize| #[trigger] t.to_set().union(s.to_set()).contains(x) implies positions_below(
        n,
    ).contains(x) by {
        if t.contains(x) {
            let a = choose|a: int| 0 <= a < t.len() && t[a] == x;
            assert(p[a] < n);
        } else {
            let b = choose|b: int| 0 <= b < s.len() && s[b] == x;
            assert(p[b + k] < n);
        }
    }
    assert(t.to_set().union(s.to_set()) =~= positions_below(n));
}

} // verus!
