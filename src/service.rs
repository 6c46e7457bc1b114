//! Decisions of the prediction service: turning a request's named fields into
//! a record in model order, and choosing the reply for each request.

use vstd::prelude::*;

use crate::matrix::DenseMatrix;
use crate::schema::{feature_columns, feature_names, find_name, views_of, NUM_FEATURES};
use crate::table::{all_present, column_position, first_missing};

verus! {

/// A prediction request that cannot be served as sent.
#[derive(Debug, PartialEq, Eq)]
pub enum ValidationError {
    /// No value was sent under this predictor name.
    MissingField(String),
}

/// The thirteen predictor values of one housing record.
#[derive(Debug, Clone, Copy, PartialEq)]
pub struct HousingFeatures<T> {
    pub crim: T,
    pub zn: T,
    pub indus: T,
    pub chas: T,
    pub nox: T,
    pub rm: T,
    pub age: T,
    pub dis: T,
    pub rad: T,
    pub tax: T,
    pub ptratio: T,
    pub b: T,
    pub lstat: T,
}

/// The names of named values.
pub open spec fn field_names<T>(fields: Seq<(String, T)>) -> Seq<Seq<char>> {
    fields.map_values(|f: (String, T)| f.0@)
}

/// For each wanted name, the value of the first field with that name.
pub open spec fn values_for<T>(fields: Seq<(String, T)>, wanted: Seq<Seq<char>>) -> Seq<T> {
    wanted.map_values(|w: Seq<char>| fields[column_position(field_names(fields), w)].1)
}

impl<T: Copy> HousingFeatures<T> {
    /// The values in model order.
    pub open spec fn values(&self) -> Seq<T> {
        seq![
            self.crim, self.zn, self.indus, self.chas, self.nox, self.rm, self.age,
            self.dis, self.rad, self.tax, self.ptratio, self.b, self.lstat,
        ]
    }

    /// The values in model order, ready to be one row of a feature matrix.
    pub fn feature_row(&self) -> (r: Vec<T>)
        ensures
            r@ == self.values(),
            r@.len() == NUM_FEATURES,
    {
        let mut r: Vec<T> = Vec::new();
        r.push(self.crim);
        r.push(self.zn);
        r.push(self.indus);
        r.push(self.chas);
        r.push(self.nox);
        r.push(self.rm);
        r.push(self.age);
        r.push(self.dis);
        r.push(self.rad);
        r.push(self.tax);
        r.push(self.ptratio);
        r.push(self.b);
        r.push(self.lstat);
        assert(r@ =~= self.values());
        r
    }

    /// The record as a feature matrix of one row.
    pub fn to_matrix(&self) -> (r: DenseMatrix<T>)
        ensures
            r.rows_spec() == 1,
            r.cols_spec() == NUM_FEATURES,
            r.entries() == self.values(),
    {
        DenseMatrix::single_row(self.feature_row())
    }

    /// Picks each predictor by name from named values (the first value under
    /// a name counts); fails on the first predictor, in model order, that has
    /// no value.
    pub fn from_named(fields: &Vec<(String, T)>) -> (r: Result<HousingFeatures<T>, ValidationError>)
        ensures
            r is Ok <==> all_present(field_names(fields@), feature_names()),
            r matches Ok(f) ==> f.values() == values_for(fields@, feature_names()),
            r matches Err(ValidationError::MissingField(n)) ==> exists|k: int|
                first_missing(field_names(fields@), feature_names(), k) && n@
                    == #[trigger] feature_names()[k],
    {
        let mut names: Vec<String> = Vec::new();
        let mut i: usize = 0;
        while i < fields.len()
            invariant
                0 <= i <= fields@.len(),
                names@.len() == i,
                forall|j: int| 0 <= j < i ==> (#[trigger] names@[j])@ == fields@[j].0@,
            decreases fields@.len() - i,
        {
            let entry = &fields[i];
            let nm = entry.0.clone();
            assert(nm@ == field_names(fields@)[i as int]);
            names.push(nm);
            i = i + 1;
        }
        assert(views_of(names@) =~= field_names(fields@));
        let ghost fnames = field_names(fields@);
        let wanted = feature_columns();
        let ghost w = feature_names();
        let mut vals: Vec<T> = Vec::new();
        let mut k: usize = 0;
        while k < wanted.len()
            invariant
                0 <= k <= wanted@.len(),
                views_of(wanted@) == w,
                w == feature_names(),
                fnames == field_names(fields@),
                views_of(names@) == fnames,
                forall|m: int| 0 <= m < k ==> fnames.contains(#[trigger] w[m]),
                vals@ == values_for(fields@, w).take(k as int),
            decreases wanted@.len() - k,
        {
            match find_name(&names, &wanted[k]) {
                Some(p) => {
                    proof {
                        fnames.index_of_first_ensures(w[k as int]);
                        let q = fnames.index_of_first(w[k as int])->Some_0;
                        assert(q == p as int);
                        assert(fnames[q] == w[k as int]);
                    }
                    vals.push(fields[p].1);
                },
                None => {
                    let n = wanted[k].clone();
                    proof {
                        fnames.index_of_first_ensures(w[k as int]);
                        assert(!fnames.contains(w[k as int]));
                        assert(first_missing(fnames, w, k as int));
                    }
                    return Err(ValidationError::MissingField(n));
                },
            }
            k = k + 1;
            assert(vals@ =~= values_for(fields@, w).take(k as int));
        }
        assert(vals@ =~= values_for(fields@, w));
        let f = HousingFeatures {
            crim: vals[0],
            zn: vals[1],
            indus: vals[2],
            chas: vals[3],
            nox: vals[4],
            rm: vals[5],
            age: vals[6],
            dis: vals[7],
            rad: vals[8],
            tax: vals[9],
            ptratio: vals[10],
            b: vals[11],
            lstat: vals[12],
        };
        assert(f.values() =~= vals@);
        Ok(f)
    }
}

/// Text of the liveness reply.
pub open spec fn health_text() -> Seq<char> {
    "Health check OK"@
}

/// What the service keeps between requests, as far as its decisions go.
#[derive(Debug, Clone, Copy, PartialEq, Eq)]
pub struct ServiceState {
    pub model_loaded: bool,
}

/// A request to the service.
#[derive(Debug)]
pub enum Request<T> {
    /// Liveness check.
    Health,
    /// Estimate for a record, or why the sent fields do not form one.
    Predict(Result<HousingFeatures<T>, ValidationError>),
}

/// What the service does about a request.
#[derive(Debug)]
pub enum Action<T> {
    /// Reply that the service is alive.
    ReplyHealthy,
    /// Run the model on this one-row matrix and reply with the estimate.
    Infer(DenseMatrix<T>),
    /// Reply with a client error.
    Reject(ValidationError),
    /// Reply that no model is loaded.
    Unavailable,
}

/// The HTTP status of each action.
pub open spec fn status_of<T>(a: Action<T>) -> u16 {
    match a {
        Action::ReplyHealthy => 200,
        Action::Infer(_) => 200,
        Action::Reject(_) => 400,
        Action::Unavailable => 503,
    }
}

impl<T> Action<T> {
    /// The HTTP status of the reply.
    pub fn status(&self) -> (r: u16)
        ensures
            r == status_of(*self),
    {
        match self {
            Action::ReplyHealthy => 200,
            Action::Infer(_) => 200,
            Action::Reject(_) => 400,
            Action::Unavailable => 503,
        }
    }
}

/// The liveness reply's text.
pub fn health_message() -> (r: String)
    ensures
        r@ == health_text(),
{
    "Health check OK".to_owned()
}

/// Chooses what to do about a request: a liveness check always succeeds; a
/// malformed prediction request is rejected; a well-formed one is run
/// against the model if one is loaded.
pub fn decide<T: Copy>(state: &ServiceState, request: Request<T>) -> (r: Action<T>)
    ensures
        request is Health ==> r is ReplyHealthy,
        request matches Request::Predict(Err(e)) ==> r == Action::<T>::Reject(e),
        request matches Request::Predict(Ok(f)) ==> {
            &&& state.model_loaded ==> (r matches Action::Infer(m) && m.rows_spec() == 1
                && m.cols_spec() == NUM_FEATURES && m.entries() == f.values())
            &&& !state.model_loaded ==> r is Unavailable
        },
{
    match request {
        Request::Health => Action::ReplyHealthy,
        Request::Predict(Err(e)) => Action::Reject(e),
        Request::Predict(Ok(f)) => {
            if state.model_loaded {
                Action::Infer(f.to_matrix())
            } else {
                Action::Unavailable
            }
        },
    }
}

/// Handles a prediction request given as named values.
pub fn handle_predict<T: Copy>(state: &ServiceState, fields: &Vec<(String, T)>) -> (r: Action<T>)
    ensures
        all_present(field_names(fields@), feature_names()) && state.model_loaded ==> (r matches Action::Infer(m)
            && m.rows_spec() == 1 && m.cols_spec() == NUM_FEATURES && m.entries() == values_for(
            fields@,
            feature_names(),
        )),
        all_present(field_names(fields@), feature_names()) && !state.model_loaded ==> r is Unavailable,
        !all_present(field_names(fields@), feature_names()) ==> {
            &&& status_of(r) == 400
            &&& r matches Action::Reject(ValidationError::MissingField(n)) && exists|k: int|
                first_missing(field_names(fields@), feature_names(), k) && n@
                    == #[trigger] feature_names()[k]
        },
{
    decide(state, Request::Predict(HousingFeatures::from_named(fields)))
}

} // verus!
