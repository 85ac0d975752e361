//! The command-queue query keys.

use crate::decode::Shape;
use vstd::prelude::*;

verus! {

/// A command-queue query key.
#[allow(non_camel_case_types)]
#[derive(Clone, Copy, Debug, PartialEq, Eq, Structural)]
pub enum CommandQueueInfo {
    CL_QUEUE_CONTEXT,
    CL_QUEUE_DEVICE,
    CL_QUEUE_REFERENCE_COUNT,
    CL_QUEUE_PROPERTIES,
    /// Known to runtimes from version 2.0.
    CL_QUEUE_SIZE,
    /// Known to runtimes from version 2.1.
    CL_QUEUE_DEVICE_DEFAULT,
    /// Known to runtimes from version 3.0.
    CL_QUEUE_PROPERTIES_ARRAY,
}

impl CommandQueueInfo {
    /// The number by which the runtime knows the key.
    pub open spec fn param(self) -> u32 {
        match self {
            CommandQueueInfo::CL_QUEUE_CONTEXT => 0x1090,
            CommandQueueInfo::CL_QUEUE_DEVICE => 0x1091,
            CommandQueueInfo::CL_QUEUE_REFERENCE_COUNT => 0x1092,
            CommandQueueInfo::CL_QUEUE_PROPERTIES => 0x1093,
            CommandQueueInfo::CL_QUEUE_SIZE => 0x1094,
            CommandQueueInfo::CL_QUEUE_DEVICE_DEFAULT => 0x1095,
            CommandQueueInfo::CL_QUEUE_PROPERTIES_ARRAY => 0x1098,
        }
    }

    /// The shape of the key's value.
    pub open spec fn value_shape(self) -> Shape {
        match self {
            CommandQueueInfo::CL_QUEUE_REFERENCE_COUNT => Shape::Uint,
            CommandQueueInfo::CL_QUEUE_SIZE => Shape::Uint,
            CommandQueueInfo::CL_QUEUE_PROPERTIES => Shape::Ulong,
            CommandQueueInfo::CL_QUEUE_PROPERTIES_ARRAY => Shape::VecUlong,
            _ => Shape::Ptr,
        }
    }

    /// The number by which the runtime knows the key.
    pub fn param_id(self) -> (r: u32)
        ensures
            r == self.param(),
    {
        match self {
            CommandQueueInfo::CL_QUEUE_CONTEXT => 0x1090,
            CommandQueueInfo::CL_QUEUE_DEVICE => 0x1091,
            CommandQueueInfo::CL_QUEUE_REFERENCE_COUNT => 0x1092,
            CommandQueueInfo::CL_QUEUE_PROPERTIES => 0x1093,
            CommandQueueInfo::CL_QUEUE_SIZE => 0x1094,
            CommandQueueInfo::CL_QUEUE_DEVICE_DEFAULT => 0x1095,
            CommandQueueInfo::CL_QUEUE_PROPERTIES_ARRAY => 0x1098,
        }
    }

    /// The shape of the key's value.
    pub fn shape(self) -> (r: Shape)
        ensures
            r == self.value_shape(),
    {
        match self {
            CommandQueueInfo::CL_QUEUE_REFERENCE_COUNT => Shape::Uint,
            CommandQueueInfo::CL_QUEUE_SIZE => Shape::Uint,
            CommandQueueInfo::CL_QUEUE_PROPERTIES => Shape::Ulong,
            CommandQueueInfo::CL_QUEUE_PROPERTIES_ARRAY => Shape::VecUlong,
            _ => Shape::Ptr,
        }
    }
}

} // verus!
