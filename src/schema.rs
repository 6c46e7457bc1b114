//! The single named schema shared by training and serving: the thirteen
//! predictor columns in the order the model expects, and the target column.

use vstd::prelude::*;

verus! {

/// Number of predictor columns of a housing record.
pub const NUM_FEATURES: usize = 13;

/// Names of the predictor columns, in model order.
pub open spec fn feature_names() -> Seq<Seq<char>> {
    seq![
        "crim"@, "zn"@, "indus"@, "chas"@, "nox"@, "rm"@, "age"@,
        "dis"@, "rad"@, "tax"@, "ptratio"@, "b"@, "lstat"@,
    ]
}

/// Name of the target column (median value).
pub open spec fn target_name() -> Seq<char> {
    "medv"@
}

/// The views of a list of strings.
pub open spec fn views_of(names: Seq<String>) -> Seq<Seq<char>> {
    names.map_values(|s: String| s@)
}

/// The predictor column names, in model order.
pub fn feature_columns() -> (r: Vec<String>)
    ensures
        views_of(r@) == feature_names(),
{
    let mut r: Vec<String> = Vec::new();
    r.push("crim".to_owned());
    r.push("zn".to_owned());
    r.push("indus".to_owned());
    r.push("chas".to_owned());
    r.push("nox".to_owned());
    r.push("rm".to_owned());
    r.push("age".to_owned());
    r.push("dis".to_owned());
    r.push("rad".to_owned());
    r.push("tax".to_owned());
    r.push("ptratio".to_owned());
    r.push("b".to_owned());
    r.push("lstat".to_owned());
    assert(views_of(r@) =~= feature_names());
    r
}

/// The target column name.
pub fn target_column() -> (r: String)
    ensures
        r@ == target_name(),
{
    "medv".to_owned()
}

proof fn lemma_first_position(v: Seq<Seq<char>>, n: Seq<char>, i: int)
    requires
        0 <= i < v.len(),
        v[i] == n,
        forall|j: int| 0 <= j < i ==> v[j] != n,
    ensures
        v.index_of_first(n) == Some(i),
{
    v.index_of_first_ensures(n);
    match v.index_of_first(n) {
        Some(k) => {
            if k > i {
                assert(v[i] != n);
            }
        },
        None => {
            assert(v.contains(n));
        },
    }
}

/// Position of the first entry of `names` equal to `name`, if any.
pub fn find_name(names: &Vec<String>, name: &String) -> (r: Option<usize>)
    ensures
        r matches Some(i) ==> views_of(names@).index_of_first(name@) == Some(i as int),
        r is None ==> views_of(names@).index_of_first(name@) is None,
{
    let ghost v = views_of(names@);
    proof {
        v.index_of_first_ensures(name@);
    }
    let mut i: usize = 0;
    while i < names.len()
        invariant
            0 <= i <= names@.len(),
            v == views_of(names@),
            forall|j: int| 0 <= j < i ==> v[j] != name@,
        decreases names@.len() - i,
    {
        if names[i] == *name {
            proof {
                assert(v[i as int] == name@);
                lemma_first_position(v, name@, i as int);
            }
            return Some(i);
        }
        i = i + 1;
    }
    proof {
        assert(!v.contains(name@));
    }
    None
}

} // verus!
