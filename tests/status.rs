use cl3::status::{status_to_result, value_or_status, CL_INVALID_VALUE, CL_SUCCESS};

#[test]
fn success_status_carries_the_value() {
    assert_eq!(value_or_status(CL_SUCCESS, 42u64), Ok(42u64));
    assert_eq!(status_to_result(CL_SUCCESS), Ok(()));
}

#[test]
fn failure_status_is_returned_unchanged() {
    assert_eq!(value_or_status(CL_INVALID_VALUE, 7u32), Err(-30));
    assert_eq!(value_or_status(-5, 7u32), Err(-5));
    assert_eq!(status_to_result(-36), Err(-36));
    assert_eq!(status_to_result(1), Err(1));
}
