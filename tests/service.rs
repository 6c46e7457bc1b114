use house_price_predictor::schema::feature_columns;
use house_price_predictor::service::{
    decide, handle_predict, health_message, Action, HousingFeatures, Request, ServiceState,
    ValidationError,
};

fn payload() -> Vec<(String, f64)> {
    feature_columns()
        .into_iter()
        .enumerate()
        .map(|(i, n)| (n, i as f64 + 0.5))
        .collect()
}

#[test]
fn health_succeeds_with_and_without_model() {
    for loaded in [true, false] {
        let a: Action<f64> = decide(&ServiceState { model_loaded: loaded }, Request::Health);
        assert!(matches!(a, Action::ReplyHealthy));
        assert_eq!(a.status(), 200);
    }
    assert_eq!(health_message(), "Health check OK");
}

#[test]
fn complete_payload_is_inferred_in_model_order() {
    let mut fields = payload();
    fields.reverse();
    let a = handle_predict(&ServiceState { model_loaded: true }, &fields);
    assert_eq!(a.status(), 200);
    match a {
        Action::Infer(m) => {
            assert_eq!(m.num_rows(), 1);
            assert_eq!(m.num_cols(), 13);
            let expected: Vec<f64> = (0..13).map(|i| i as f64 + 0.5).collect();
            assert_eq!(m.data(), &expected);
        }
        other => panic!("unexpected action {:?}", other),
    }
}

#[test]
fn first_value_under_a_name_counts() {
    let mut fields = vec![("rm".to_string(), 99.0)];
    fields.extend(payload());
    let f = HousingFeatures::from_named(&fields).unwrap();
    assert_eq!(f.rm, 99.0);
    assert_eq!(f.crim, 0.5);
    assert_eq!(f.lstat, 12.5);
}

#[test]
fn missing_field_is_a_client_error() {
    let mut fields = payload();
    fields.retain(|(n, _)| n != "ptratio" && n != "zn");
    let a = handle_predict(&ServiceState { model_loaded: true }, &fields);
    assert_eq!(a.status(), 400);
    match a {
        Action::Reject(e) => assert_eq!(e, ValidationError::MissingField("zn".to_string())),
        other => panic!("unexpected action {:?}", other),
    }
}

#[test]
fn no_model_means_unavailable() {
    let a = handle_predict(&ServiceState { model_loaded: false }, &payload());
    assert!(matches!(a, Action::Unavailable));
    assert_eq!(a.status(), 503);
}

#[test]
fn feature_row_order() {
    let f = HousingFeatures {
        crim: 1, zn: 2, indus: 3, chas: 4, nox: 5, rm: 6, age: 7, dis: 8, rad: 9, tax: 10,
        ptratio: 11, b: 12, lstat: 13,
    };
    assert_eq!(f.feature_row(), (1..=13).collect::<Vec<i32>>());
    let m = f.to_matrix();
    assert_eq!(m.num_rows(), 1);
    assert_eq!(m.data(), &(1..=13).collect::<Vec<i32>>());
}
