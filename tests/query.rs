use cl3::command_queue::CommandQueueInfo;
use cl3::decode::{decode_reply, ByteOrder, Shape};
use cl3::info_type::InfoError;
use cl3::platform::PlatformInfo;
use cl3::query::{Call, InfoQuery, Stage};
use cl3::status::{CL_INVALID_VALUE, CL_SUCCESS};

/// Runs a query against an answer that a runtime would give, counting the
/// native calls: `size_status` answers a size query, `value` a value query.
fn run(width: Option<usize>, size_status: i32, value: &[u8], value_status: i32) -> (Result<Vec<u8>, i32>, usize) {
    let mut q = InfoQuery::new(width);
    let mut calls = 0;
    loop {
        match q.next_call() {
            Some(Call::Size) => {
                calls += 1;
                if let Err(e) = q.size_reply(size_status, value.len()) {
                    assert_eq!(q.next_call(), None);
                    return (Err(e), calls);
                }
            }
            Some(Call::Value(n)) => {
                calls += 1;
                assert_eq!(n, value.len());
                let r = q.value_reply(value_status, value.to_vec());
                assert_eq!(q.next_call(), None);
                assert_eq!(q.calls, calls);
                return (r, calls);
            }
            None => panic!("query ended without a result"),
        }
    }
}

#[test]
fn variable_size_key_takes_two_calls() {
    let mut q = InfoQuery::new(None);
    assert_eq!(q.next_call(), Some(Call::Size));
    assert_eq!(q.size_reply(CL_SUCCESS, 12), Ok(()));
    assert_eq!(q.stage, Stage::Fetching(12));
    assert_eq!(q.next_call(), Some(Call::Value(12)));
    let buffer = b"NVIDIA CUDA\0".to_vec();
    assert_eq!(q.value_reply(CL_SUCCESS, buffer.clone()), Ok(buffer));
    assert_eq!(q.next_call(), None);
    assert_eq!(q.calls, 2);
}

#[test]
fn fixed_width_key_takes_one_call() {
    let mut q = InfoQuery::new(Some(4));
    assert_eq!(q.next_call(), Some(Call::Value(4)));
    assert_eq!(q.value_reply(CL_SUCCESS, vec![1u8, 0, 0, 0]), Ok(vec![1u8, 0, 0, 0]));
    assert_eq!(q.next_call(), None);
    assert_eq!(q.calls, 1);
}

#[test]
fn failed_size_query_ends_the_query() {
    let mut q = InfoQuery::new(None);
    assert_eq!(q.size_reply(CL_INVALID_VALUE, 0), Err(CL_INVALID_VALUE));
    assert_eq!(q.stage, Stage::Done);
    assert_eq!(q.next_call(), None);
    assert_eq!(q.calls, 1);
}

#[test]
fn failed_value_query_returns_its_status() {
    let mut q = InfoQuery::new(Some(8));
    assert_eq!(q.value_reply(-36, vec![0u8; 8]), Err(-36));
    assert_eq!(q.next_call(), None);
}

#[test]
fn zero_size_is_no_error() {
    let (reply, calls) = run(None, CL_SUCCESS, &[], CL_SUCCESS);
    assert_eq!(calls, 2);
    assert_eq!(reply, Ok(Vec::new()));
    let shape = PlatformInfo::CL_PLATFORM_EXTENSIONS.shape();
    let value = decode_reply(shape, &reply, ByteOrder::Little).unwrap();
    assert_eq!(value.to_str(), Vec::<u8>::new());
    let shape = PlatformInfo::CL_PLATFORM_EXTENSIONS_WITH_VERSION.shape();
    let value = decode_reply(shape, &reply, ByteOrder::Little).unwrap();
    assert_eq!(value.to_vec_name_version().len(), 0);
}

#[test]
fn platform_name_query() {
    let key = PlatformInfo::CL_PLATFORM_NAME;
    let shape = key.shape();
    let (reply, calls) = run(shape.fixed_width(), CL_SUCCESS, b"Portable Computing Language\0", CL_SUCCESS);
    assert_eq!(calls, 2);
    let name = decode_reply(shape, &reply, ByteOrder::Little).unwrap().to_str();
    assert!(0 < name.len());
    assert_eq!(name, b"Portable Computing Language".to_vec());
}

#[test]
fn queue_reference_count_query() {
    let key = CommandQueueInfo::CL_QUEUE_REFERENCE_COUNT;
    let shape = key.shape();
    let (reply, calls) = run(shape.fixed_width(), CL_SUCCESS, &1u32.to_le_bytes(), CL_SUCCESS);
    assert_eq!(calls, 1);
    let count = decode_reply(shape, &reply, ByteOrder::Little).unwrap().to_uint();
    assert_eq!(count, 1);
}

#[test]
fn unknown_key_reports_invalid_value() {
    let key = CommandQueueInfo::CL_QUEUE_PROPERTIES_ARRAY;
    let shape = key.shape();
    let (reply, calls) = run(shape.fixed_width(), CL_INVALID_VALUE, &[], CL_SUCCESS);
    assert_eq!(calls, 1);
    assert_eq!(
        decode_reply(shape, &reply, ByteOrder::Little).unwrap_err(),
        InfoError::Status(CL_INVALID_VALUE)
    );

    let key = CommandQueueInfo::CL_QUEUE_SIZE;
    let shape = key.shape();
    let (reply, calls) = run(shape.fixed_width(), CL_SUCCESS, &[0, 0, 0, 0], CL_INVALID_VALUE);
    assert_eq!(calls, 1);
    assert_eq!(
        decode_reply(shape, &reply, ByteOrder::Little).unwrap_err(),
        InfoError::Status(CL_INVALID_VALUE)
    );
}

#[test]
fn platform_keys_and_shapes() {
    assert_eq!(PlatformInfo::CL_PLATFORM_PROFILE.param_id(), 0x0900);
    assert_eq!(PlatformInfo::CL_PLATFORM_VERSION.param_id(), 0x0901);
    assert_eq!(PlatformInfo::CL_PLATFORM_NAME.param_id(), 0x0902);
    assert_eq!(PlatformInfo::CL_PLATFORM_VENDOR.param_id(), 0x0903);
    assert_eq!(PlatformInfo::CL_PLATFORM_EXTENSIONS.param_id(), 0x0904);
    assert_eq!(PlatformInfo::CL_PLATFORM_HOST_TIMER_RESOLUTION.param_id(), 0x0905);
    assert_eq!(PlatformInfo::CL_PLATFORM_NUMERIC_VERSION.param_id(), 0x0906);
    assert_eq!(PlatformInfo::CL_PLATFORM_EXTENSIONS_WITH_VERSION.param_id(), 0x0907);
    assert_eq!(PlatformInfo::CL_PLATFORM_VENDOR.shape(), Shape::Str);
    assert_eq!(PlatformInfo::CL_PLATFORM_HOST_TIMER_RESOLUTION.shape(), Shape::Ulong);
    assert_eq!(PlatformInfo::CL_PLATFORM_NUMERIC_VERSION.shape(), Shape::Uint);
    assert_eq!(PlatformInfo::CL_PLATFORM_EXTENSIONS_WITH_VERSION.shape(), Shape::VecNameVersion);
    assert_eq!(Shape::Str.fixed_width(), None);
    assert_eq!(Shape::Ulong.fixed_width(), Some(8));
}

#[test]
fn queue_keys_and_shapes() {
    assert_eq!(CommandQueueInfo::CL_QUEUE_CONTEXT.param_id(), 0x1090);
    assert_eq!(CommandQueueInfo::CL_QUEUE_DEVICE.param_id(), 0x1091);
    assert_eq!(CommandQueueInfo::CL_QUEUE_REFERENCE_COUNT.param_id(), 0x1092);
    assert_eq!(CommandQueueInfo::CL_QUEUE_PROPERTIES.param_id(), 0x1093);
    assert_eq!(CommandQueueInfo::CL_QUEUE_SIZE.param_id(), 0x1094);
    assert_eq!(CommandQueueInfo::CL_QUEUE_DEVICE_DEFAULT.param_id(), 0x1095);
    assert_eq!(CommandQueueInfo::CL_QUEUE_PROPERTIES_ARRAY.param_id(), 0x1098);
    assert_eq!(CommandQueueInfo::CL_QUEUE_CONTEXT.shape(), Shape::Ptr);
    assert_eq!(CommandQueueInfo::CL_QUEUE_DEVICE_DEFAULT.shape(), Shape::Ptr);
    assert_eq!(CommandQueueInfo::CL_QUEUE_SIZE.shape(), Shape::Uint);
    assert_eq!(CommandQueueInfo::CL_QUEUE_PROPERTIES.shape(), Shape::Ulong);
    assert_eq!(CommandQueueInfo::CL_QUEUE_PROPERTIES_ARRAY.shape(), Shape::VecUlong);
    assert_eq!(Shape::Ptr.fixed_width(), Some(std::mem::size_of::<usize>()));
    assert_eq!(Shape::Uint.fixed_width(), Some(4));
}

#[test]
fn platform_count_decides_the_fetch() {
    assert_eq!(cl3::platform::ids_to_fetch(CL_SUCCESS, 3), Ok(Some(3)));
    assert_eq!(cl3::platform::ids_to_fetch(CL_SUCCESS, 0), Ok(None));
    assert_eq!(cl3::platform::ids_to_fetch(-1001, 0), Err(-1001));
}
