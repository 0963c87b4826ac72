use house_price_predictor::error::PipelineError;
use house_price_predictor::features::{feature_names, select_columns, split_features_and_target};
use house_price_predictor::service::{features_from_request, step, Action, Event, PredictRequest, ServiceState};
use house_price_predictor::split::{
    identity_indices, split_by_permutation, split_index, train_test_split, train_test_split_seeded,
};
use house_price_predictor::table::Table;
use house_price_predictor::training::check_training_sets;
use house_price_predictor::transfer::{check_fetch_status, store_error};

const COLUMNS: [&str; 14] = [
    "crim", "zn", "indus", "chas", "nox", "rm", "age", "dis", "rad", "tax", "ptratio", "b",
    "lstat", "medv",
];

fn names(list: &[&str]) -> Vec<String> {
    list.iter().map(|s| s.to_string()).collect()
}

/// A table in the fixed schema whose row `i` holds `100 * i + j` in column `j`.
fn housing_table(n: usize) -> Table {
    let rows = (0..n)
        .map(|i| (0..14).map(|j| (100 * i + j) as u64).collect())
        .collect();
    Table::new(names(&COLUMNS), rows).unwrap()
}

fn row_ids(t: &Table) -> Vec<u64> {
    t.rows.iter().map(|r| r[0] / 100).collect()
}

#[test]
fn split_ten_rows_keeps_eight_for_training() {
    let t = housing_table(10);
    let (train, test) = train_test_split(&t, 1, 5);
    assert_eq!(train.height(), 8);
    assert_eq!(test.height(), 2);
    assert_eq!(train.names, t.names);
    assert_eq!(test.names, t.names);
}

#[test]
fn split_rows_are_disjoint_and_cover_the_table() {
    let t = housing_table(37);
    let (train, test) = train_test_split(&t, 3, 10);
    assert_eq!(train.height(), 26);
    let mut ids: Vec<u64> = row_ids(&train);
    ids.extend(row_ids(&test));
    ids.sort();
    assert_eq!(ids, (0..37).collect::<Vec<u64>>());
    for r in train.rows.iter().chain(test.rows.iter()) {
        let i = r[0] / 100;
        assert_eq!(*r, (0..14).map(|j| 100 * i + j).collect::<Vec<u64>>());
    }
}

#[test]
fn seeded_split_is_reproducible() {
    let t = housing_table(25);
    let (a_train, a_test) = train_test_split_seeded(&t, 1, 5, 42);
    let (b_train, b_test) = train_test_split_seeded(&t, 1, 5, 42);
    assert_eq!(a_train.rows, b_train.rows);
    assert_eq!(a_test.rows, b_test.rows);
    assert_eq!(a_train.height(), 20);
}

#[test]
fn seeded_split_reorders_rows() {
    let t = housing_table(30);
    let (train, test) = train_test_split_seeded(&t, 1, 2, 7);
    let mut ids = row_ids(&train);
    ids.extend(row_ids(&test));
    assert_ne!(ids, (0..30).collect::<Vec<u64>>());
}

#[test]
fn random_split_reorders_rows() {
    let t = housing_table(60);
    let (train, test) = train_test_split(&t, 1, 2);
    let mut ids = row_ids(&train);
    ids.extend(row_ids(&test));
    assert_ne!(ids, (0..60).collect::<Vec<u64>>());
}

#[test]
fn split_by_permutation_takes_rows_in_permutation_order() {
    let t = housing_table(5);
    let perm = vec![3usize, 0, 4, 1, 2];
    let (train, test) = split_by_permutation(&t, &perm, 2, 5);
    assert_eq!(row_ids(&train), vec![3, 0, 4]);
    assert_eq!(row_ids(&test), vec![1, 2]);
}

#[test]
fn split_index_rounds_up() {
    assert_eq!(split_index(10, 1, 5), 8);
    assert_eq!(split_index(3, 1, 2), 2);
    assert_eq!(split_index(7, 1, 3), 5);
    assert_eq!(split_index(0, 1, 5), 0);
    assert_eq!(split_index(1, 99, 100), 1);
    assert_eq!(split_index(usize::MAX, 1, 2), usize::MAX / 2 + 1);
}

#[test]
fn empty_table_gives_empty_train_and_training_fails() {
    let t = housing_table(0);
    let (train, test) = train_test_split(&t, 1, 5);
    assert_eq!(train.height(), 0);
    assert_eq!(test.height(), 0);
    let (x, y) = split_features_and_target(&train).unwrap();
    assert_eq!(check_training_sets(&x, &y, &x, &y), Err(PipelineError::EmptyDataset));
}

#[test]
fn identity_indices_counts_up() {
    assert_eq!(identity_indices(4), vec![0, 1, 2, 3]);
    assert!(identity_indices(0).is_empty());
}

#[test]
fn ragged_rows_are_a_parse_error() {
    let r = Table::new(names(&["a", "b"]), vec![vec![1, 2], vec![3]]);
    assert!(matches!(r, Err(PipelineError::Parse)));
}

#[test]
fn features_and_target_follow_schema_order() {
    // columns stored in reverse order
    let rev: Vec<&str> = COLUMNS.iter().rev().cloned().collect();
    let rows = vec![(0..14u64).collect::<Vec<u64>>(), (100..114u64).collect()];
    let t = Table::new(names(&rev), rows).unwrap();
    let (x, y) = split_features_and_target(&t).unwrap();
    assert_eq!(x.names, names(&COLUMNS[..13]));
    assert_eq!(y.names, names(&["medv"]));
    assert_eq!(x.height(), 2);
    assert_eq!(y.height(), 2);
    assert_eq!(x.rows[0], (1..14u64).rev().collect::<Vec<u64>>());
    assert_eq!(x.rows[1], (101..114u64).rev().collect::<Vec<u64>>());
    assert_eq!(y.rows, vec![vec![0], vec![100]]);
}

#[test]
fn missing_column_is_a_schema_error() {
    let t = Table::new(names(&COLUMNS[..13]), vec![(0..13u64).collect()]).unwrap();
    assert!(matches!(split_features_and_target(&t), Err(PipelineError::Schema)));
    let t = Table::new(names(&COLUMNS[1..]), vec![(0..13u64).collect()]).unwrap();
    assert!(matches!(split_features_and_target(&t), Err(PipelineError::Schema)));
}

#[test]
fn select_columns_picks_first_match() {
    let t = Table::new(names(&["a", "b", "a"]), vec![vec![1, 2, 3]]).unwrap();
    let s = select_columns(&t, &names(&["a", "b", "a"])).unwrap();
    assert_eq!(s.rows, vec![vec![1, 2, 1]]);
}

#[test]
fn row_major_lays_rows_end_to_end() {
    let t = Table::new(names(&["a", "b"]), vec![vec![1, 2], vec![3, 4], vec![5, 6]]).unwrap();
    assert_eq!(t.to_row_major(), vec![1, 2, 3, 4, 5, 6]);
    assert_eq!(t.width(), 2);
}

#[test]
fn training_checks_row_counts() {
    let x = housing_table(4);
    let y = housing_table(3);
    assert_eq!(check_training_sets(&x, &y, &x, &x), Err(PipelineError::DimensionMismatch));
    assert_eq!(check_training_sets(&x, &x, &x, &y), Err(PipelineError::DimensionMismatch));
    assert_eq!(check_training_sets(&x, &x, &y, &y), Ok(()));
    let e = housing_table(0);
    assert_eq!(check_training_sets(&x, &x, &e, &e), Ok(()));
}

fn full_request() -> PredictRequest {
    let names = feature_names();
    let values = (0..13u64).map(|v| Some(v * 10)).collect();
    PredictRequest { names, values }
}

#[test]
fn request_features_in_schema_order() {
    let mut req = full_request();
    req.names.reverse();
    let f = features_from_request(&req).unwrap();
    assert_eq!(f, (0..13u64).rev().map(|v| v * 10).collect::<Vec<u64>>());
}

#[test]
fn request_missing_rm_is_rejected() {
    let mut req = full_request();
    req.names.remove(5);
    req.values.remove(5);
    assert_eq!(features_from_request(&req), Err(PipelineError::Validation));
}

#[test]
fn request_with_non_number_is_rejected() {
    let mut req = full_request();
    req.values[2] = None;
    assert_eq!(features_from_request(&req), Err(PipelineError::Validation));
}

#[test]
fn request_with_duplicate_or_extra_field_is_rejected() {
    let mut req = full_request();
    req.names[12] = "crim".to_string();
    assert_eq!(features_from_request(&req), Err(PipelineError::Validation));
    let mut req = full_request();
    req.names.push("medv".to_string());
    req.values.push(Some(1));
    assert_eq!(features_from_request(&req), Err(PipelineError::Validation));
}

#[test]
fn service_rejects_bad_request_then_serves_good_one() {
    let (s, a) = step(ServiceState::Unloaded, &Event::Predict(full_request()));
    assert_eq!(s, ServiceState::Unloaded);
    assert!(matches!(a, Action::Unavailable));
    let (s, a) = step(s, &Event::ModelLoaded);
    assert_eq!(s, ServiceState::Ready);
    assert!(matches!(a, Action::Serve));
    let mut bad = full_request();
    bad.names.remove(5);
    bad.values.remove(5);
    let (s, a) = step(s, &Event::Predict(bad));
    assert_eq!(s, ServiceState::Ready);
    assert!(matches!(a, Action::Reject(PipelineError::Validation)));
    let (s, a) = step(s, &Event::Predict(full_request()));
    assert_eq!(s, ServiceState::Ready);
    match a {
        Action::Infer(v) => assert_eq!(v, (0..13u64).map(|v| v * 10).collect::<Vec<u64>>()),
        other => panic!("unexpected action {:?}", other),
    }
    let (s, a) = step(s, &Event::Health);
    assert_eq!(s, ServiceState::Ready);
    assert!(matches!(a, Action::Healthy));
    let (s, a) = step(s, &Event::ModelLoadFailed);
    assert_eq!(s, ServiceState::Ready);
    assert!(matches!(a, Action::Ignore));
}

#[test]
fn service_same_request_same_answer() {
    let (s1, a1) = step(ServiceState::Ready, &Event::Predict(full_request()));
    let (s2, a2) = step(s1, &Event::Predict(full_request()));
    assert_eq!(s2, ServiceState::Ready);
    match (a1, a2) {
        (Action::Infer(x), Action::Infer(y)) => assert_eq!(x, y),
        _ => panic!("expected inference twice"),
    }
}

#[test]
fn failed_load_exits() {
    let (s, a) = step(ServiceState::Unloaded, &Event::ModelLoadFailed);
    assert_eq!(s, ServiceState::Unloaded);
    assert!(matches!(a, Action::Exit));
}

#[test]
fn statuses_map_to_errors() {
    assert_eq!(check_fetch_status(200), Ok(()));
    assert_eq!(check_fetch_status(299), Ok(()));
    assert_eq!(check_fetch_status(404), Err(PipelineError::Transfer));
    assert_eq!(check_fetch_status(301), Err(PipelineError::Transfer));
    assert_eq!(store_error(401), PipelineError::Authentication);
    assert_eq!(store_error(403), PipelineError::Authentication);
    assert_eq!(store_error(404), PipelineError::NotFound);
    assert_eq!(store_error(500), PipelineError::Transfer);
}
