use streamutils::collect_vec::{CollectVec, CollectVecOption, CollectVecResult};

#[test]
fn collect_test() {
    let iter = (0..10).collect::<Vec<i32>>();
    let data = iter.collect_vec();
    assert_eq!(data, vec![0, 1, 2, 3, 4, 5, 6, 7, 8, 9]);
}

#[test]
fn collect_vec_result_test() {
    let ok_seq: Vec<Result<i32, ()>> = vec![Ok(1), Ok(2), Ok(3), Ok(4)];

    assert_eq!(ok_seq.collect_vec_result().unwrap(), [1, 2, 3, 4]);

    let err_seq = vec![Ok(1), Ok(2), Err("error"), Ok(4)];

    assert_eq!(err_seq.collect_vec_result(), Err("error"));
}

#[test]
fn collect_vec_option_test() {
    let some_seq = vec![Some(1), Some(2), Some(3), Some(4)];
    assert_eq!(some_seq.collect_vec_option(), Some(vec![1, 2, 3, 4]));

    let none_seq = vec![Some(1), Some(2), None, Some(4)];
    assert_eq!(none_seq.collect_vec_option(), None);
}

#[test]
fn collect_first_error_test() {
    let seq: Vec<Result<i32, &str>> = vec![Err("first"), Ok(2), Err("second")];
    assert_eq!(seq.collect_vec_result(), Err("first"));

    let empty: Vec<Result<i32, &str>> = Vec::new();
    assert_eq!(empty.collect_vec_result(), Ok(Vec::new()));

    let empty: Vec<Option<i32>> = Vec::new();
    assert_eq!(empty.collect_vec_option(), Some(Vec::new()));
}
