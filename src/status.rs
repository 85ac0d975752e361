//! Native status codes turned into results.

use vstd::prelude::*;

verus! {

/// The status code with which a native call reports success.
pub const CL_SUCCESS: i32 = 0;

/// The status code of a native call that was given an invalid value,
/// such as a query key that the runtime does not know.
pub const CL_INVALID_VALUE: i32 = -30;

/// The result that a status code stands for, carrying `value` on success.
pub open spec fn status_result<T>(status: i32, value: T) -> Result<T, i32> {
    if status == CL_SUCCESS {
        Ok(value)
    } else {
        Err(status)
    }
}

/// Turns the status of a native call that produced `value` (a new handle, an
/// event) into a result: `Ok(value)` on success, else the code unchanged.
pub fn value_or_status<T>(status: i32, value: T) -> (r: Result<T, i32>)
    ensures
        r == status_result(status, value),
        status == CL_SUCCESS <==> r is Ok,
        status != CL_SUCCESS ==> r == Err::<T, i32>(status),
{
    if status == CL_SUCCESS {
        Ok(value)
    } else {
        Err(status)
    }
}

/// Turns the status of a native call without an out-parameter into a result.
pub fn status_to_result(status: i32) -> (r: Result<(), i32>)
    ensures
        r == status_result(status, ()),
        status == CL_SUCCESS <==> r is Ok,
        status != CL_SUCCESS ==> r == Err::<(), i32>(status),
{
    value_or_status(status, ())
}

} // verus!
