use typing_core::results::{
    classify_post_result_db_error, results_page, GetResultsError, GetResultsParams,
    PostResultError,
};

#[test]
fn zero_limit_is_rejected() {
    let ids = vec![5, 4, 3];
    assert_eq!(results_page(&ids, 0), Err(GetResultsError::NonPositiveLimit));
    let err = GetResultsError::NonPositiveLimit;
    assert_eq!(err.status_code(), 422);
    assert_eq!(err.message(), "Limit should be a strictly positive integer");
}

#[test]
fn short_fetch_exhausts_the_history() {
    // the store was asked for limit + 1 rows but had only two
    let ids = vec![9, 8];
    assert_eq!(results_page(&ids, 2), Ok((0, 2)));
    assert_eq!(results_page(&Vec::new(), 3), Ok((0, 0)));
}

#[test]
fn full_fetch_keeps_one_page_and_continues() {
    // three rows came back for a page of two: keep two, continue below id 7
    let ids = vec![9, 7, 5];
    assert_eq!(results_page(&ids, 2), Ok((7, 2)));
    let ids = vec![9];
    assert_eq!(results_page(&ids, 2), Ok((0, 1)));
}

#[test]
fn duplicate_results_are_recognized() {
    assert_eq!(
        classify_post_result_db_error("Duplicate entry '3-1' for key 'unique_result'"),
        PostResultError::DuplicateResult
    );
    assert_eq!(
        classify_post_result_db_error("Duplicate entry 'ada' for key 'username'"),
        PostResultError::Other
    );
    assert_eq!(classify_post_result_db_error("timeout"), PostResultError::Other);
    assert_eq!(PostResultError::DuplicateResult.message(), "Duplicate result");
    assert_eq!(PostResultError::Other.status_code(), 500);
}

#[test]
fn query_params_carry_cursor_and_limit() {
    let params = GetResultsParams { cursor: Some(17), limit: 25 };
    assert_eq!(params.cursor, Some(17));
    assert_eq!(params.limit, 25);
}
