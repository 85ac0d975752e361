//! The platform query keys.

use crate::decode::Shape;
use crate::status::CL_SUCCESS;
use vstd::prelude::*;

verus! {

/// A platform query key.
#[allow(non_camel_case_types)]
#[derive(Clone, Copy, Debug, PartialEq, Eq, Structural)]
pub enum PlatformInfo {
    CL_PLATFORM_PROFILE,
    CL_PLATFORM_VERSION,
    CL_PLATFORM_NAME,
    CL_PLATFORM_VENDOR,
    CL_PLATFORM_EXTENSIONS,
    /// Known to runtimes from version 2.1.
    CL_PLATFORM_HOST_TIMER_RESOLUTION,
    /// Known to runtimes from version 3.0.
    CL_PLATFORM_NUMERIC_VERSION,
    /// Known to runtimes from version 3.0.
    CL_PLATFORM_EXTENSIONS_WITH_VERSION,
}

impl PlatformInfo {
    /// The number by which the runtime knows the key.
    pub open spec fn param(self) -> u32 {
        match self {
            PlatformInfo::CL_PLATFORM_PROFILE => 0x0900,
            PlatformInfo::CL_PLATFORM_VERSION => 0x0901,
            PlatformInfo::CL_PLATFORM_NAME => 0x0902,
            PlatformInfo::CL_PLATFORM_VENDOR => 0x0903,
            PlatformInfo::CL_PLATFORM_EXTENSIONS => 0x0904,
            PlatformInfo::CL_PLATFORM_HOST_TIMER_RESOLUTION => 0x0905,
            PlatformInfo::CL_PLATFORM_NUMERIC_VERSION => 0x0906,
            PlatformInfo::CL_PLATFORM_EXTENSIONS_WITH_VERSION => 0x0907,
        }
    }

    /// The shape of the key's value.
    pub open spec fn value_shape(self) -> Shape {
        match self {
            PlatformInfo::CL_PLATFORM_HOST_TIMER_RESOLUTION => Shape::Ulong,
            PlatformInfo::CL_PLATFORM_NUMERIC_VERSION => Shape::Uint,
            PlatformInfo::CL_PLATFORM_EXTENSIONS_WITH_VERSION => Shape::VecNameVersion,
            _ => Shape::Str,
        }
    }

    /// The number by which the runtime knows the key.
    pub fn param_id(self) -> (r: u32)
        ensures
            r == self.param(),
    {
        match self {
            PlatformInfo::CL_PLATFORM_PROFILE => 0x0900,
            PlatformInfo::CL_PLATFORM_VERSION => 0x0901,
            PlatformInfo::CL_PLATFORM_NAME => 0x0902,
            PlatformInfo::CL_PLATFORM_VENDOR => 0x0903,
            PlatformInfo::CL_PLATFORM_EXTENSIONS => 0x0904,
            PlatformInfo::CL_PLATFORM_HOST_TIMER_RESOLUTION => 0x0905,
            PlatformInfo::CL_PLATFORM_NUMERIC_VERSION => 0x0906,
            PlatformInfo::CL_PLATFORM_EXTENSIONS_WITH_VERSION => 0x0907,
        }
    }

    /// The shape of the key's value.
    pub fn shape(self) -> (r: Shape)
        ensures
            r == self.value_shape(),
    {
        match self {
            PlatformInfo::CL_PLATFORM_HOST_TIMER_RESOLUTION => Shape::Ulong,
            PlatformInfo::CL_PLATFORM_NUMERIC_VERSION => Shape::Uint,
            PlatformInfo::CL_PLATFORM_EXTENSIONS_WITH_VERSION => Shape::VecNameVersion,
            _ => Shape::Str,
        }
    }
}

/// What to do after the platform count query answered with `status` and
/// `count`: fetch that many ids, stop with none (the runtime refuses a fetch
/// of no entries), or fail with the status unchanged.
pub fn ids_to_fetch(status: i32, count: u32) -> (r: Result<Option<usize>, i32>)
    ensures
        status != CL_SUCCESS ==> r == Err::<Option<usize>, i32>(status),
        status == CL_SUCCESS && count == 0 ==> r == Ok::<Option<usize>, i32>(None),
        status == CL_SUCCESS && count > 0 ==> r == Ok::<Option<usize>, i32>(Some(count as usize)),
{
    if status != CL_SUCCESS {
        Err(status)
    } else if count == 0 {
        Ok(None)
    } else {
        Ok(Some(count as usize))
    }
}

} // verus!
