//! Typed decoding of the bytes that a query returned.

use crate::info_type::{InfoError, InfoType, InfoValue, NameVersion, NAME_SIZE};
use vstd::layout::size_of;
use vstd::arithmetic::div_mod::lemma_fundamental_div_mod_converse;
use vstd::prelude::*;

verus! {

broadcast use vstd::layout::layout_of_primitives;

/// The number of bytes of one name and version record: the version, then the name.
pub const NAME_VERSION_SIZE: usize = 4 + NAME_SIZE;

/// The shape of the value that a query key stands for.
#[derive(Clone, Copy, Debug, PartialEq, Eq, Structural)]
pub enum Shape {
    /// A byte string, usually null-terminated.
    Str,
    /// A 32-bit unsigned integer.
    Uint,
    /// A 64-bit unsigned integer.
    Ulong,
    /// A handle-sized integer.
    Ptr,
    /// A list of name and version records.
    VecNameVersion,
    /// A list of 64-bit unsigned integers.
    VecUlong,
}

impl Shape {
    /// The number of bytes of a value of this shape, where that is fixed.
    pub open spec fn width(self) -> Option<nat> {
        match self {
            Shape::Uint => Some(4),
            Shape::Ulong => Some(8),
            Shape::Ptr => Some(size_of::<usize>()),
            _ => None,
        }
    }

    /// The number of bytes of a value of this shape, where that is fixed.
    pub fn fixed_width(self) -> (r: Option<usize>)
        ensures
            r is Some <==> self.width() is Some,
            r is Some ==> r->Some_0 as nat == self.width()->Some_0,
            r is Some ==> r->Some_0 <= 8,
    {
        match self {
            Shape::Uint => Some(4),
            Shape::Ulong => Some(8),
            Shape::Ptr => Some(core::mem::size_of::<usize>()),
            _ => None,
        }
    }
}

/// The order in which the bytes of an integer are laid out.
#[derive(Clone, Copy, Debug, PartialEq, Eq, Structural)]
pub enum ByteOrder {
    Little,
    Big,
}

/// `256` to the power `n`.
pub open spec fn pow256(n: nat) -> nat
    decreases n,
{
    if n == 0 {
        1
    } else {
        256 * pow256((n - 1) as nat)
    }
}

/// The unsigned number that `bytes` hold, least significant byte first.
pub open spec fn le_value(bytes: Seq<u8>) -> nat
    decreases bytes.len(),
{
    if bytes.len() == 0 {
        0
    } else {
        bytes[0] as nat + 256 * le_value(bytes.drop_first())
    }
}

/// The unsigned number that `bytes` hold, most significant byte first.
pub open spec fn be_value(bytes: Seq<u8>) -> nat
    decreases bytes.len(),
{
    if bytes.len() == 0 {
        0
    } else {
        256 * be_value(bytes.drop_last()) + bytes.last() as nat
    }
}

/// The unsigned number that `bytes` hold in the given order.
pub open spec fn uint_value(bytes: Seq<u8>, order: ByteOrder) -> nat {
    match order {
        ByteOrder::Little => le_value(bytes),
        ByteOrder::Big => be_value(bytes),
    }
}

/// The `n` lowest bytes of `v`, least significant first.
pub open spec fn le_bytes(v: nat, n: nat) -> Seq<u8>
    decreases n,
{
    if n == 0 {
        seq![]
    } else {
        seq![(v % 256) as u8] + le_bytes(v / 256, (n - 1) as nat)
    }
}

/// The `n` lowest bytes of `v`, most significant first.
pub open spec fn be_bytes(v: nat, n: nat) -> Seq<u8>
    decreases n,
{
    if n == 0 {
        seq![]
    } else {
        be_bytes(v / 256, (n - 1) as nat).push((v % 256) as u8)
    }
}

/// The `n` lowest bytes of `v` in the given order.
pub open spec fn uint_bytes(v: nat, n: nat, order: ByteOrder) -> Seq<u8> {
    match order {
        ByteOrder::Little => le_bytes(v, n),
        ByteOrder::Big => be_bytes(v, n),
    }
}

pub proof fn lemma_pow256_mono(a: nat, b: nat)
    requires
        a <= b,
    ensures
        pow256(a) <= pow256(b),
    decreases b,
{
    if a < b {
        lemma_pow256_mono(a, (b - 1) as nat);
    }
}

/// The number that `n` bytes hold is below `256` to the power `n`.
pub proof fn lemma_value_bound(bytes: Seq<u8>, order: ByteOrder)
    ensures
        uint_value(bytes, order) < pow256(bytes.len()),
    decreases bytes.len(),
{
    if bytes.len() > 0 {
        let n = (bytes.len() - 1) as nat;
        match order {
            ByteOrder::Little => {
                let rest = bytes.drop_first();
                lemma_value_bound(rest, order);
                let b = bytes[0] as nat;
                let v = le_value(rest);
                assert(b + 256 * v < 256 * pow256(n)) by (nonlinear_arith)
                    requires
                        b < 256,
                        v < pow256(n),
                ;
            },
            ByteOrder::Big => {
                let rest = bytes.drop_last();
                lemma_value_bound(rest, order);
                let b = bytes.last() as nat;
                let v = be_value(rest);
                assert(256 * v + b < 256 * pow256(n)) by (nonlinear_arith)
                    requires
                        b < 256,
                        v < pow256(n),
                ;
            },
        }
    }
}

/// The powers of `256` that bound the scalar shapes.
pub proof fn lemma_scalar_bounds()
    ensures
        pow256(4) == u32::MAX + 1,
        pow256(8) == u64::MAX + 1,
        pow256(size_of::<usize>()) == usize::MAX + 1,
{
    reveal_with_fuel(pow256, 9);
    assert(size_of::<usize>() == 4 || size_of::<usize>() == 8);
}

/// Reads the unsigned number that `width` bytes of `bytes` from `start` hold.
fn read_uint(bytes: &Vec<u8>, start: usize, width: usize, order: ByteOrder) -> (v: u64)
    requires
        width <= 8,
        start + width <= bytes@.len(),
    ensures
        v == uint_value(bytes@.subrange(start as int, start + width), order),
{
    let ghost sub = bytes@.subrange(start as int, start + width);
    proof {
        reveal_with_fuel(pow256, 8);
    }
    let len = bytes.len();
    let mut acc: u64 = 0;
    match order {
        ByteOrder::Little => {
            let mut i: usize = width;
            assert(sub.subrange(width as int, width as int) =~= Seq::<u8>::empty());
            while i > 0
                invariant
                    i <= width <= 8,
                    start + width <= bytes@.len(),
                    len == bytes@.len(),
                    sub == bytes@.subrange(start as int, start + width),
                    acc == le_value(sub.subrange(i as int, width as int)),
                    pow256(7) == 0x100000000000000,
                decreases i,
            {
                let ghost tail = sub.subrange(i as int, width as int);
                proof {
                    lemma_value_bound(tail, ByteOrder::Little);
                    lemma_pow256_mono((width - i) as nat, 7);
                }
                let b = bytes[start + i - 1];
                i = i - 1;
                let ghost next = sub.subrange(i as int, width as int);
                assert(next.drop_first() =~= tail);
                assert(next[0] == b);
                acc = b as u64 + acc * 256;
            }
            assert(sub.subrange(0, width as int) =~= sub);
        },
        ByteOrder::Big => {
            let mut i: usize = 0;
            assert(sub.subrange(0, 0) =~= Seq::<u8>::empty());
            while i < width
                invariant
                    i <= width <= 8,
                    start + width <= bytes@.len(),
                    len == bytes@.len(),
                    sub == bytes@.subrange(start as int, start + width),
                    acc == be_value(sub.subrange(0, i as int)),
                    pow256(7) == 0x100000000000000,
                decreases width - i,
            {
                let ghost head = sub.subrange(0, i as int);
                proof {
                    lemma_value_bound(head, ByteOrder::Big);
                    lemma_pow256_mono(i as nat, 7);
                }
                let b = bytes[start + i];
                i = i + 1;
                let ghost next = sub.subrange(0, i as int);
                assert(next.drop_last() =~= head);
                assert(next.last() == b);
                acc = acc * 256 + b as u64;
            }
            assert(sub.subrange(0, width as int) =~= sub);
        },
    }
    acc
}

/// The handle whose two's-complement bit pattern is the unsigned `v`.
pub open spec fn handle_of(v: nat) -> isize {
    if v <= isize::MAX {
        v as isize
    } else {
        (v - usize::MAX - 1) as isize
    }
}

/// The unsigned number with the bit pattern of the handle `x`.
pub open spec fn handle_bits(x: isize) -> nat {
    if x >= 0 {
        x as nat
    } else {
        (x + usize::MAX + 1) as nat
    }
}

/// The handle with the bit pattern of `u`.
fn handle_from_bits(u: usize) -> (r: isize)
    ensures
        r == handle_of(u as nat),
{
    if u <= isize::MAX as usize {
        u as isize
    } else {
        let d = usize::MAX - u;
        -(d as isize) - 1
    }
}

/// The bytes of a string result: without the trailing null, if there is one.
pub open spec fn trim_nul(bytes: Seq<u8>) -> Seq<u8> {
    if bytes.len() > 0 && bytes.last() == 0 {
        bytes.drop_last()
    } else {
        bytes
    }
}

/// The `i`th name and version record of `bytes`.
pub open spec fn name_version_at(bytes: Seq<u8>, i: int, order: ByteOrder) -> (u32, Seq<u8>) {
    let at = NAME_VERSION_SIZE * i;
    (
        uint_value(bytes.subrange(at, at + 4), order) as u32,
        bytes.subrange(at + 4, at + NAME_VERSION_SIZE),
    )
}

/// The `i`th 64-bit unsigned integer of `bytes`.
pub open spec fn ulong_at(bytes: Seq<u8>, i: int, order: ByteOrder) -> u64 {
    uint_value(bytes.subrange(8 * i, 8 * i + 8), order) as u64
}

/// The value that `bytes` hold read as `shape`, or `None` where their number
/// does not fit the shape.
pub open spec fn decoded(shape: Shape, bytes: Seq<u8>, order: ByteOrder) -> Option<InfoValue> {
    match shape {
        Shape::Str => Some(InfoValue::Str(trim_nul(bytes))),
        Shape::Uint => if bytes.len() == 4 {
            Some(InfoValue::Uint(uint_value(bytes, order) as u32))
        } else {
            None
        },
        Shape::Ulong => if bytes.len() == 8 {
            Some(InfoValue::Ulong(uint_value(bytes, order) as u64))
        } else {
            None
        },
        Shape::Ptr => if bytes.len() == size_of::<usize>() {
            Some(InfoValue::Ptr(handle_of(uint_value(bytes, order))))
        } else {
            None
        },
        Shape::VecNameVersion => if bytes.len() % NAME_VERSION_SIZE as nat == 0 {
            Some(
                InfoValue::VecNameVersion(
                    Seq::new(
                        bytes.len() / NAME_VERSION_SIZE as nat,
                        |i: int| name_version_at(bytes, i, order),
                    ),
                ),
            )
        } else {
            None
        },
        Shape::VecUlong => if bytes.len() % 8 == 0 {
            Some(InfoValue::VecUlong(Seq::new(bytes.len() / 8, |i: int| ulong_at(bytes, i, order))))
        } else {
            None
        },
    }
}

/// A copy of the bytes from `start` up to `end`.
fn copy_range(bytes: &Vec<u8>, start: usize, end: usize) -> (r: Vec<u8>)
    requires
        start <= end <= bytes@.len(),
    ensures
        r@ == bytes@.subrange(start as int, end as int),
{
    let mut r: Vec<u8> = Vec::new();
    let mut i: usize = start;
    while i < end
        invariant
            start <= i <= end <= bytes@.len(),
            r@ == bytes@.subrange(start as int, i as int),
        decreases end - i,
    {
        r.push(bytes[i]);
        i = i + 1;
        assert(r@ =~= bytes@.subrange(start as int, i as int));
    }
    r
}

/// The list of name and version records that `bytes` hold.
fn decode_name_versions(bytes: &Vec<u8>, order: ByteOrder) -> (r: Vec<NameVersion>)
    requires
        bytes@.len() % NAME_VERSION_SIZE as nat == 0,
    ensures
        r@.map_values(|x: NameVersion| x@) == Seq::new(
            bytes@.len() / NAME_VERSION_SIZE as nat,
            |i: int| name_version_at(bytes@, i, order),
        ),
{
    let len = bytes.len();
    let count = len / NAME_VERSION_SIZE;
    assert(NAME_VERSION_SIZE == 68);
    let mut out: Vec<NameVersion> = Vec::new();
    let mut i: usize = 0;
    let mut at: usize = 0;
    assert(NAME_VERSION_SIZE * count <= bytes@.len()) by (nonlinear_arith)
        requires
            count == bytes@.len() / NAME_VERSION_SIZE as nat,
    ;
    while i < count
        invariant
            i <= count,
            len == bytes@.len(),
            count == bytes@.len() / NAME_VERSION_SIZE as nat,
            NAME_VERSION_SIZE == 68,
            NAME_VERSION_SIZE * count <= bytes@.len(),
            at == NAME_VERSION_SIZE * i,
            out@.len() == i,
            forall|j: int| 0 <= j < i ==> #[trigger] out@[j]@ == name_version_at(bytes@, j, order),
        decreases count - i,
    {
        assert(68 * (i + 1) <= 68 * count) by (nonlinear_arith)
            requires
                i + 1 <= count,
        ;
        assert(at + 68 <= bytes@.len());
        let version = read_uint(bytes, at, 4, order);
        proof {
            lemma_value_bound(bytes@.subrange(at as int, at + 4), order);
            lemma_scalar_bounds();
        }
        let name = copy_range(bytes, at + 4, at + NAME_VERSION_SIZE);
        let record = NameVersion { version: version as u32, name };
        assert(record@ == name_version_at(bytes@, i as int, order));
        out.push(record);
        i = i + 1;
        at = at + NAME_VERSION_SIZE;
    }
    assert(out@.map_values(|x: NameVersion| x@) =~= Seq::new(
        bytes@.len() / NAME_VERSION_SIZE as nat,
        |i: int| name_version_at(bytes@, i, order),
    ));
    out
}

/// The list of 64-bit unsigned integers that `bytes` hold.
fn decode_ulongs(bytes: &Vec<u8>, order: ByteOrder) -> (r: Vec<u64>)
    requires
        bytes@.len() % 8 == 0,
    ensures
        r@ == Seq::new(bytes@.len() / 8, |i: int| ulong_at(bytes@, i, order)),
{
    let len = bytes.len();
    let count = len / 8;
    let mut out: Vec<u64> = Vec::new();
    let mut i: usize = 0;
    let mut at: usize = 0;
    while i < count
        invariant
            i <= count,
            len == bytes@.len(),
            count == bytes@.len() / 8,
            8 * count <= bytes@.len(),
            at == 8 * i,
            out@.len() == i,
            forall|j: int| 0 <= j < i ==> #[trigger] out@[j] == ulong_at(bytes@, j, order),
        decreases count - i,
    {
        assert(8 * (i + 1) <= 8 * count) by (nonlinear_arith)
            requires
                i + 1 <= count,
        ;
        let v = read_uint(bytes, at, 8, order);
        out.push(v);
        i = i + 1;
        at = at + 8;
    }
    assert(out@ =~= Seq::new(bytes@.len() / 8, |i: int| ulong_at(bytes@, i, order)));
    out
}

/// Reads `bytes` as a value of `shape`, with integers laid out in `order`.
/// A string loses its trailing null; a number of bytes that does not fit the
/// shape is an error that names it.
pub fn decode(shape: Shape, bytes: &Vec<u8>, order: ByteOrder) -> (r: Result<InfoType, InfoError>)
    ensures
        decoded(shape, bytes@, order) is Some ==> r is Ok && r->Ok_0@ == decoded(
            shape,
            bytes@,
            order,
        )->Some_0,
        decoded(shape, bytes@, order) is None ==> r == Err::<InfoType, InfoError>(
            InfoError::Length(bytes@.len() as usize),
        ),
{
    let len = bytes.len();
    match shape {
        Shape::Str => {
            let end = if len > 0 && bytes[len - 1] == 0 {
                len - 1
            } else {
                len
            };
            let s = copy_range(bytes, 0, end);
            assert(s@ =~= trim_nul(bytes@));
            Ok(InfoType::Str(s))
        },
        Shape::Uint => {
            if len == 4 {
                let v = read_uint(bytes, 0, 4, order);
                assert(bytes@.subrange(0, 4) =~= bytes@);
                proof {
                    lemma_value_bound(bytes@, order);
                    lemma_scalar_bounds();
                }
                Ok(InfoType::Uint(v as u32))
            } else {
                Err(InfoError::Length(len))
            }
        },
        Shape::Ulong => {
            if len == 8 {
                let v = read_uint(bytes, 0, 8, order);
                assert(bytes@.subrange(0, 8) =~= bytes@);
                Ok(InfoType::Ulong(v))
            } else {
                Err(InfoError::Length(len))
            }
        },
        Shape::Ptr => {
            let width = core::mem::size_of::<usize>();
            if len == width {
                let v = read_uint(bytes, 0, width, order);
                assert(bytes@.subrange(0, width as int) =~= bytes@);
                proof {
                    lemma_value_bound(bytes@, order);
                    lemma_scalar_bounds();
                }
                Ok(InfoType::Ptr(handle_from_bits(v as usize)))
            } else {
                Err(InfoError::Length(len))
            }
        },
        Shape::VecNameVersion => {
            if len % NAME_VERSION_SIZE == 0 {
                Ok(InfoType::VecNameVersion(decode_name_versions(bytes, order)))
            } else {
                Err(InfoError::Length(len))
            }
        },
        Shape::VecUlong => {
            if len % 8 == 0 {
                Ok(InfoType::VecUlong(decode_ulongs(bytes, order)))
            } else {
                Err(InfoError::Length(len))
            }
        },
    }
}

/// The typed result of a query whose reply was `reply`: its failure status
/// unchanged, or its buffer read as `shape`.
pub fn decode_reply(shape: Shape, reply: &Result<Vec<u8>, i32>, order: ByteOrder) -> (r: Result<
    InfoType,
    InfoError,
>)
    ensures
        reply is Err ==> r == Err::<InfoType, InfoError>(InfoError::Status(reply->Err_0)),
        reply is Ok && decoded(shape, reply->Ok_0@, order) is Some ==> r is Ok && r->Ok_0@
            == decoded(shape, reply->Ok_0@, order)->Some_0,
        reply is Ok && decoded(shape, reply->Ok_0@, order) is None ==> r == Err::<
            InfoType,
            InfoError,
        >(InfoError::Length(reply->Ok_0@.len() as usize)),
{
    match reply {
        Ok(bytes) => decode(shape, bytes, order),
        Err(status) => Err(InfoError::Status(*status)),
    }
}

/// Writing back the number that `bytes` hold, in as many bytes and the same
/// order, gives `bytes` again.
pub proof fn lemma_bytes_of_value(bytes: Seq<u8>, order: ByteOrder)
    ensures
        uint_bytes(uint_value(bytes, order), bytes.len(), order) == bytes,
    decreases bytes.len(),
{
    if bytes.len() > 0 {
        let n = (bytes.len() - 1) as nat;
        match order {
            ByteOrder::Little => {
                let rest = bytes.drop_first();
                lemma_bytes_of_value(rest, order);
                let v = le_value(bytes);
                lemma_fundamental_div_mod_converse(
                    v as int,
                    256,
                    le_value(rest) as int,
                    bytes[0] as int,
                );
                assert(le_bytes(v, bytes.len()) =~= bytes);
            },
            ByteOrder::Big => {
                let rest = bytes.drop_last();
                lemma_bytes_of_value(rest, order);
                let v = be_value(bytes);
                lemma_fundamental_div_mod_converse(
                    v as int,
                    256,
                    be_value(rest) as int,
                    bytes.last() as int,
                );
                assert(be_bytes(v, bytes.len()) =~= bytes);
            },
        }
    }
}

/// Reading back the `n` lowest bytes of a number below `256` to the power `n`
/// gives the number again.
pub proof fn lemma_value_of_bytes(v: nat, n: nat, order: ByteOrder)
    requires
        v < pow256(n),
    ensures
        uint_bytes(v, n, order).len() == n,
        uint_value(uint_bytes(v, n, order), order) == v,
    decreases n,
{
    if n > 0 {
        let m = (n - 1) as nat;
        assert(v / 256 < pow256(m)) by (nonlinear_arith)
            requires
                v < 256 * pow256(m),
        ;
        lemma_value_of_bytes(v / 256, m, order);
        assert(v == 256 * (v / 256) + v % 256) by (nonlinear_arith);
        match order {
            ByteOrder::Little => {
                let s = le_bytes(v, n);
                assert(s.drop_first() =~= le_bytes(v / 256, m));
            },
            ByteOrder::Big => {
                let s = be_bytes(v, n);
                assert(s.drop_last() =~= be_bytes(v / 256, m));
            },
        }
    } else {
        assert(v == 0);
    }
}

/// The bytes that a scalar result stands for, in the given order.
pub open spec fn scalar_bytes(v: InfoValue, order: ByteOrder) -> Seq<u8> {
    match v {
        InfoValue::Uint(x) => uint_bytes(x as nat, 4, order),
        InfoValue::Ulong(x) => uint_bytes(x as nat, 8, order),
        InfoValue::Ptr(x) => uint_bytes(handle_bits(x), size_of::<usize>(), order),
        _ => Seq::empty(),
    }
}

/// For a key of fixed width, a buffer of exactly that many bytes decodes
/// without error, and the value decoded keeps the buffer's bit pattern.
pub proof fn lemma_scalar_round_trip(shape: Shape, bytes: Seq<u8>, order: ByteOrder)
    requires
        shape.width() is Some,
        bytes.len() == shape.width()->Some_0,
    ensures
        decoded(shape, bytes, order) is Some,
        scalar_bytes(decoded(shape, bytes, order)->Some_0, order) == bytes,
{
    lemma_value_bound(bytes, order);
    lemma_bytes_of_value(bytes, order);
    lemma_scalar_bounds();
    let v = uint_value(bytes, order);
    match shape {
        Shape::Uint => {
            assert(v as u32 as nat == v);
        },
        Shape::Ulong => {
            assert(v as u64 as nat == v);
        },
        Shape::Ptr => {
            assert(handle_bits(handle_of(v)) == v);
        },
        _ => {},
    }
}

/// The bytes of a 32-bit or 64-bit number, in either order, decode to that
/// number.
pub proof fn lemma_scalar_encode_decode(x32: u32, x64: u64, order: ByteOrder)
    ensures
        decoded(Shape::Uint, uint_bytes(x32 as nat, 4, order), order) == Some(
            InfoValue::Uint(x32),
        ),
        decoded(Shape::Ulong, uint_bytes(x64 as nat, 8, order), order) == Some(
            InfoValue::Ulong(x64),
        ),
{
    lemma_scalar_bounds();
    lemma_value_of_bytes(x32 as nat, 4, order);
    lemma_value_of_bytes(x64 as nat, 8, order);
}

/// A string result is its buffer without the trailing null.
pub proof fn lemma_string_drops_nul(bytes: Seq<u8>, order: ByteOrder)
    requires
        bytes.len() > 0,
        bytes.last() == 0,
    ensures
        decoded(Shape::Str, bytes, order) == Some(InfoValue::Str(bytes.drop_last())),
{
}

/// An empty buffer is no error where the shape's size varies: it decodes to an
/// empty string or an empty list.
pub proof fn lemma_empty_decodes_empty(order: ByteOrder)
    ensures
        decoded(Shape::Str, Seq::empty(), order) == Some(InfoValue::Str(Seq::empty())),
        decoded(Shape::VecNameVersion, Seq::empty(), order) == Some(
            InfoValue::VecNameVersion(Seq::empty()),
        ),
        decoded(Shape::VecUlong, Seq::empty(), order) == Some(InfoValue::VecUlong(Seq::empty())),
{
    assert(Seq::new(0, |i: int| name_version_at(Seq::empty(), i, order)) =~= Seq::empty());
    assert(Seq::new(0, |i: int| ulong_at(Seq::empty(), i, order)) =~= Seq::empty());
}

} // verus!
