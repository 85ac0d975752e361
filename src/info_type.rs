//! The typed result of an information query.

use vstd::prelude::*;

verus! {

/// The number of bytes of the name in a name and version record.
pub const NAME_SIZE: usize = 64;

/// A name and version record, as the runtime lists extensions with their
/// versions: a packed version number and a null-padded name.
#[derive(Clone, Debug)]
pub struct NameVersion {
    pub version: u32,
    /// The name's bytes as the runtime wrote them, padding included.
    pub name: Vec<u8>,
}

impl View for NameVersion {
    type V = (u32, Seq<u8>);

    open spec fn view(&self) -> (u32, Seq<u8>) {
        (self.version, self.name@)
    }
}

/// What a query returned, in the shape that its key calls for.
#[derive(Clone, Debug)]
pub enum InfoType {
    Str(Vec<u8>),
    Uint(u32),
    Ulong(u64),
    Ptr(isize),
    VecNameVersion(Vec<NameVersion>),
    VecUlong(Vec<u64>),
}

/// The mathematical value of an `InfoType`.
pub enum InfoValue {
    Str(Seq<u8>),
    Uint(u32),
    Ulong(u64),
    Ptr(isize),
    VecNameVersion(Seq<(u32, Seq<u8>)>),
    VecUlong(Seq<u64>),
}

impl View for InfoType {
    type V = InfoValue;

    open spec fn view(&self) -> InfoValue {
        match self {
            InfoType::Str(s) => InfoValue::Str(s@),
            InfoType::Uint(v) => InfoValue::Uint(*v),
            InfoType::Ulong(v) => InfoValue::Ulong(*v),
            InfoType::Ptr(v) => InfoValue::Ptr(*v),
            InfoType::VecNameVersion(v) => InfoValue::VecNameVersion(
                v@.map_values(|x: NameVersion| x@),
            ),
            InfoType::VecUlong(v) => InfoValue::VecUlong(v@),
        }
    }
}

/// Why a query gave no typed result.
#[derive(Clone, Copy, Debug, PartialEq, Eq, Structural)]
pub enum InfoError {
    /// A native call failed with this status code.
    Status(i32),
    /// The runtime returned this many bytes, which do not fit the key's shape.
    Length(usize),
}

impl InfoType {
    /// The bytes of a string result, without a null terminator.
    pub fn to_str(self) -> (r: Vec<u8>)
        requires
            self is Str,
        ensures
            InfoValue::Str(r@) == self@,
    {
        match self {
            InfoType::Str(s) => s,
            _ => Vec::new(),
        }
    }

    /// The value of a 32-bit unsigned result.
    pub fn to_uint(&self) -> (r: u32)
        requires
            self is Uint,
        ensures
            InfoValue::Uint(r) == self@,
    {
        match self {
            InfoType::Uint(v) => *v,
            _ => 0,
        }
    }

    /// The value of a 64-bit unsigned result.
    pub fn to_ulong(&self) -> (r: u64)
        requires
            self is Ulong,
        ensures
            InfoValue::Ulong(r) == self@,
    {
        match self {
            InfoType::Ulong(v) => *v,
            _ => 0,
        }
    }

    /// The value of a handle-sized result.
    pub fn to_ptr(&self) -> (r: isize)
        requires
            self is Ptr,
        ensures
            InfoValue::Ptr(r) == self@,
    {
        match self {
            InfoType::Ptr(v) => *v,
            _ => 0,
        }
    }

    /// The records of a name and version list.
    pub fn to_vec_name_version(self) -> (r: Vec<NameVersion>)
        requires
            self is VecNameVersion,
        ensures
            InfoValue::VecNameVersion(r@.map_values(|x: NameVersion| x@)) == self@,
    {
        match self {
            InfoType::VecNameVersion(v) => v,
            _ => Vec::new(),
        }
    }

    /// The values of a list of 64-bit unsigned integers.
    pub fn to_vec_ulong(self) -> (r: Vec<u64>)
        requires
            self is VecUlong,
        ensures
            InfoValue::VecUlong(r@) == self@,
    {
        match self {
            InfoType::VecUlong(v) => v,
            _ => Vec::new(),
        }
    }
}

} // verus!
