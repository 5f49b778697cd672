//! The decisions of the Arrow C Data Interface: format strings, and the
//! checks that an exported or imported array must pass.
//!
//! The C structures themselves hold raw pointers; here they are described by
//! the plain values that the checks read.
use vstd::prelude::*;

pub mod format;
pub mod import;
pub mod export;
pub mod message;

verus! {

/// Dictionary values are ordered.
pub const ARROW_FLAG_DICTIONARY_ORDERED: i64 = 1;

/// The field is nullable.
pub const ARROW_FLAG_NULLABLE: i64 = 2;

/// Map keys are sorted.
pub const ARROW_FLAG_MAP_KEYS_SORTED: i64 = 4;

/// The primitive data types of the C Data Interface.
#[derive(Clone, Copy, Debug, PartialEq, Eq)]
pub enum PrimitiveType {
    Boolean,
    Int8,
    UInt8,
    Int16,
    UInt16,
    Int32,
    UInt32,
    Int64,
    UInt64,
    Float32,
    Float64,
}

/// The format string of a primitive data type.
pub open spec fn primitive_format(t: PrimitiveType) -> Seq<u8> {
    match t {
        PrimitiveType::Boolean => seq![98u8],
        PrimitiveType::Int8 => seq![99u8],
        PrimitiveType::UInt8 => seq![67u8],
        PrimitiveType::Int16 => seq![115u8],
        PrimitiveType::UInt16 => seq![83u8],
        PrimitiveType::Int32 => seq![105u8],
        PrimitiveType::UInt32 => seq![73u8],
        PrimitiveType::Int64 => seq![108u8],
        PrimitiveType::UInt64 => seq![76u8],
        PrimitiveType::Float32 => seq![102u8],
        PrimitiveType::Float64 => seq![103u8],
    }
}

impl PrimitiveType {
    /// Returns the format string of this data type (`b`, `c`, `C`, `s`,
    /// `S`, `i`, `I`, `l`, `L`, `f` or `g`).
    pub fn format(&self) -> (r: Vec<u8>)
        ensures
            r@ == primitive_format(*self),
    {
        let byte = match self {
            PrimitiveType::Boolean => 98u8,
            PrimitiveType::Int8 => 99u8,
            PrimitiveType::UInt8 => 67u8,
            PrimitiveType::Int16 => 115u8,
            PrimitiveType::UInt16 => 83u8,
            PrimitiveType::Int32 => 105u8,
            PrimitiveType::UInt32 => 73u8,
            PrimitiveType::Int64 => 108u8,
            PrimitiveType::UInt64 => 76u8,
            PrimitiveType::Float32 => 102u8,
            PrimitiveType::Float64 => 103u8,
        };
        let mut r: Vec<u8> = Vec::new();
        r.push(byte);
        assert(r@ =~= primitive_format(*self));
        r
    }
}

/// Types with a C Data Interface format string and schema flags.
pub trait ArrowType {
    /// The data type of this type's values.
    spec fn spec_data_type() -> PrimitiveType;

    /// The schema flags of this type.
    spec fn spec_flags() -> i64;

    /// Returns the data type of this type's values.
    fn data_type() -> (r: PrimitiveType)
        ensures
            r == Self::spec_data_type(),
    ;

    /// Returns the format string of this type.
    fn format() -> (r: Vec<u8>)
        ensures
            r@ == primitive_format(Self::spec_data_type()),
    ;

    /// Returns the schema flags of this type.
    fn flags() -> (r: i64)
        ensures
            r == Self::spec_flags(),
    ;
}

impl ArrowType for bool {
    open spec fn spec_data_type() -> PrimitiveType {
        PrimitiveType::Boolean
    }

    open spec fn spec_flags() -> i64 {
        0
    }

    fn data_type() -> (r: PrimitiveType) {
        PrimitiveType::Boolean
    }

    fn format() -> (r: Vec<u8>) {
        PrimitiveType::Boolean.format()
    }

    fn flags() -> (r: i64) {
        0
    }
}

impl ArrowType for i8 {
    open spec fn spec_data_type() -> PrimitiveType {
        PrimitiveType::Int8
    }

    open spec fn spec_flags() -> i64 {
        0
    }

    fn data_type() -> (r: PrimitiveType) {
        PrimitiveType::Int8
    }

    fn format() -> (r: Vec<u8>) {
        PrimitiveType::Int8.format()
    }

    fn flags() -> (r: i64) {
        0
    }
}

impl ArrowType for u8 {
    open spec fn spec_data_type() -> PrimitiveType {
        PrimitiveType::UInt8
    }

    open spec fn spec_flags() -> i64 {
        0
    }

    fn data_type() -> (r: PrimitiveType) {
        PrimitiveType::UInt8
    }

    fn format() -> (r: Vec<u8>) {
        PrimitiveType::UInt8.format()
    }

    fn flags() -> (r: i64) {
        0
    }
}

impl ArrowType for i16 {
    open spec fn spec_data_type() -> PrimitiveType {
        PrimitiveType::Int16
    }

    open spec fn spec_flags() -> i64 {
        0
    }

    fn data_type() -> (r: PrimitiveType) {
        PrimitiveType::Int16
    }

    fn format() -> (r: Vec<u8>) {
        PrimitiveType::Int16.format()
    }

    fn flags() -> (r: i64) {
        0
    }
}

impl ArrowType for u16 {
    open spec fn spec_data_type() -> PrimitiveType {
        PrimitiveType::UInt16
    }

    open spec fn spec_flags() -> i64 {
        0
    }

    fn data_type() -> (r: PrimitiveType) {
        PrimitiveType::UInt16
    }

    fn format() -> (r: Vec<u8>) {
        PrimitiveType::UInt16.format()
    }

    fn flags() -> (r: i64) {
        0
    }
}

impl ArrowType for i32 {
    open spec fn spec_data_type() -> PrimitiveType {
        PrimitiveType::Int32
    }

    open spec fn spec_flags() -> i64 {
        0
    }

    fn data_type() -> (r: PrimitiveType) {
        PrimitiveType::Int32
    }

    fn format() -> (r: Vec<u8>) {
        PrimitiveType::Int32.format()
    }

    fn flags() -> (r: i64) {
        0
    }
}

impl ArrowType for u32 {
    open spec fn spec_data_type() -> PrimitiveType {
        PrimitiveType::UInt32
    }

    open spec fn spec_flags() -> i64 {
        0
    }

    fn data_type() -> (r: PrimitiveType) {
        PrimitiveType::UInt32
    }

    fn format() -> (r: Vec<u8>) {
        PrimitiveType::UInt32.format()
    }

    fn flags() -> (r: i64) {
        0
    }
}

impl ArrowType for i64 {
    open spec fn spec_data_type() -> PrimitiveType {
        PrimitiveType::Int64
    }

    open spec fn spec_flags() -> i64 {
        0
    }

    fn data_type() -> (r: PrimitiveType) {
        PrimitiveType::Int64
    }

    fn format() -> (r: Vec<u8>) {
        PrimitiveType::Int64.format()
    }

    fn flags() -> (r: i64) {
        0
    }
}

impl ArrowType for u64 {
    open spec fn spec_data_type() -> PrimitiveType {
        PrimitiveType::UInt64
    }

    open spec fn spec_flags() -> i64 {
        0
    }

    fn data_type() -> (r: PrimitiveType) {
        PrimitiveType::UInt64
    }

    fn format() -> (r: Vec<u8>) {
        PrimitiveType::UInt64.format()
    }

    fn flags() -> (r: i64) {
        0
    }
}

impl<T: ArrowType> ArrowType for Option<T> {
    open spec fn spec_data_type() -> PrimitiveType {
        T::spec_data_type()
    }

    open spec fn spec_flags() -> i64 {
        T::spec_flags() | ARROW_FLAG_NULLABLE
    }

    fn data_type() -> (r: PrimitiveType) {
        T::data_type()
    }

    fn format() -> (r: Vec<u8>) {
        T::format()
    }

    fn flags() -> (r: i64) {
        T::flags() | ARROW_FLAG_NULLABLE
    }
}

/// An optional type is nullable: its schema flags carry
/// `ARROW_FLAG_NULLABLE` whatever the flags of the value type, and keep
/// every other flag of the value type.
pub proof fn lemma_option_flags<T: ArrowType>()
    ensures
        <Option<T> as ArrowType>::spec_flags() & ARROW_FLAG_NULLABLE == ARROW_FLAG_NULLABLE,
        <Option<T> as ArrowType>::spec_flags() & !ARROW_FLAG_NULLABLE == T::spec_flags()
            & !ARROW_FLAG_NULLABLE,
{
    let f = T::spec_flags();
    assert((f | 2i64) & 2i64 == 2i64) by (bit_vector);
    assert((f | 2i64) & !2i64 == f & !2i64) by (bit_vector);
}

/// The schema flags of a value type are the flags that an export writes,
/// and an import expects, for a column of that type: a plain value type is
/// not nullable (no flag is set), and its optional type is nullable
/// (exactly `ARROW_FLAG_NULLABLE`).
pub proof fn lemma_type_flags_match_layout()
    ensures
        <bool as ArrowType>::spec_flags() == crate::ffi::import::layout_flags(
            crate::ffi::import::Layout::Boolean { nullable: false },
        ),
        <Option<bool> as ArrowType>::spec_flags() == crate::ffi::import::layout_flags(
            crate::ffi::import::Layout::Boolean { nullable: true },
        ),
        <i8 as ArrowType>::spec_flags() == crate::ffi::import::layout_flags(
            crate::ffi::import::Layout::Primitive {
                data_type: <i8 as ArrowType>::spec_data_type(),
                nullable: false,
            },
        ),
        <Option<i8> as ArrowType>::spec_flags() == crate::ffi::import::layout_flags(
            crate::ffi::import::Layout::Primitive {
                data_type: <Option<i8> as ArrowType>::spec_data_type(),
                nullable: true,
            },
        ),
        <u8 as ArrowType>::spec_flags() == crate::ffi::import::layout_flags(
            crate::ffi::import::Layout::Primitive {
                data_type: <u8 as ArrowType>::spec_data_type(),
                nullable: false,
            },
        ),
        <Option<u8> as ArrowType>::spec_flags() == crate::ffi::import::layout_flags(
            crate::ffi::import::Layout::Primitive {
                data_type: <Option<u8> as ArrowType>::spec_data_type(),
                nullable: true,
            },
        ),
        <i16 as ArrowType>::spec_flags() == crate::ffi::import::layout_flags(
            crate::ffi::import::Layout::Primitive {
                data_type: <i16 as ArrowType>::spec_data_type(),
                nullable: false,
            },
        ),
        <Option<i16> as ArrowType>::spec_flags() == crate::ffi::import::layout_flags(
            crate::ffi::import::Layout::Primitive {
                data_type: <Option<i16> as ArrowType>::spec_data_type(),
                nullable: true,
            },
        ),
        <u16 as ArrowType>::spec_flags() == crate::ffi::import::layout_flags(
            crate::ffi::import::Layout::Primitive {
                data_type: <u16 as ArrowType>::spec_data_type(),
                nullable: false,
            },
        ),
        <Option<u16> as ArrowType>::spec_flags() == crate::ffi::import::layout_flags(
            crate::ffi::import::Layout::Primitive {
                data_type: <Option<u16> as ArrowType>::spec_data_type(),
                nullable: true,
            },
        ),
        <i32 as ArrowType>::spec_flags() == crate::ffi::import::layout_flags(
            crate::ffi::import::Layout::Primitive {
                data_type: <i32 as ArrowType>::spec_data_type(),
                nullable: false,
            },
        ),
        <Option<i32> as ArrowType>::spec_flags() == crate::ffi::import::layout_flags(
            crate::ffi::import::Layout::Primitive {
                data_type: <Option<i32> as ArrowType>::spec_data_type(),
                nullable: true,
            },
        ),
        <u32 as ArrowType>::spec_flags() == crate::ffi::import::layout_flags(
            crate::ffi::import::Layout::Primitive {
                data_type: <u32 as ArrowType>::spec_data_type(),
                nullable: false,
            },
        ),
        <Option<u32> as ArrowType>::spec_flags() == crate::ffi::import::layout_flags(
            crate::ffi::import::Layout::Primitive {
                data_type: <Option<u32> as ArrowType>::spec_data_type(),
                nullable: true,
            },
        ),
        <i64 as ArrowType>::spec_flags() == crate::ffi::import::layout_flags(
            crate::ffi::import::Layout::Primitive {
                data_type: <i64 as ArrowType>::spec_data_type(),
                nullable: false,
            },
        ),
        <Option<i64> as ArrowType>::spec_flags() == crate::ffi::import::layout_flags(
            crate::ffi::import::Layout::Primitive {
                data_type: <Option<i64> as ArrowType>::spec_data_type(),
                nullable: true,
            },
        ),
        <u64 as ArrowType>::spec_flags() == crate::ffi::import::layout_flags(
            crate::ffi::import::Layout::Primitive {
                data_type: <u64 as ArrowType>::spec_data_type(),
                nullable: false,
            },
        ),
        <Option<u64> as ArrowType>::spec_flags() == crate::ffi::import::layout_flags(
            crate::ffi::import::Layout::Primitive {
                data_type: <Option<u64> as ArrowType>::spec_data_type(),
                nullable: true,
            },
        ),
{
    assert(0i64 | 2i64 == 2i64) by (bit_vector);
}

/// The number of bytes of a value of a data type (booleans are bits, with
/// no whole byte).
pub open spec fn data_type_bytes(t: PrimitiveType) -> nat {
    match t {
        PrimitiveType::Boolean => 0,
        PrimitiveType::Int8 => 1,
        PrimitiveType::UInt8 => 1,
        PrimitiveType::Int16 => 2,
        PrimitiveType::UInt16 => 2,
        PrimitiveType::Int32 => 4,
        PrimitiveType::UInt32 => 4,
        PrimitiveType::Int64 => 8,
        PrimitiveType::UInt64 => 8,
        PrimitiveType::Float32 => 4,
        PrimitiveType::Float64 => 8,
    }
}

/// Whether a data type holds signed integers.
pub open spec fn data_type_signed(t: PrimitiveType) -> bool {
    match t {
        PrimitiveType::Int8 => true,
        PrimitiveType::Int16 => true,
        PrimitiveType::Int32 => true,
        PrimitiveType::Int64 => true,
        _ => false,
    }
}

/// The data type of each integer type has the type's width and
/// signedness: its values are exported and imported as the integers they
/// are.
pub proof fn lemma_integer_data_types()
    ensures
        data_type_bytes(<i8 as ArrowType>::spec_data_type()) == vstd::layout::size_of::<i8>(),
        data_type_signed(<i8 as ArrowType>::spec_data_type()) == (i8::MIN < 0),
        data_type_bytes(<u8 as ArrowType>::spec_data_type()) == vstd::layout::size_of::<u8>(),
        data_type_signed(<u8 as ArrowType>::spec_data_type()) == (u8::MIN < 0),
        data_type_bytes(<i16 as ArrowType>::spec_data_type()) == vstd::layout::size_of::<i16>(),
        data_type_signed(<i16 as ArrowType>::spec_data_type()) == (i16::MIN < 0),
        data_type_bytes(<u16 as ArrowType>::spec_data_type()) == vstd::layout::size_of::<u16>(),
        data_type_signed(<u16 as ArrowType>::spec_data_type()) == (u16::MIN < 0),
        data_type_bytes(<i32 as ArrowType>::spec_data_type()) == vstd::layout::size_of::<i32>(),
        data_type_signed(<i32 as ArrowType>::spec_data_type()) == (i32::MIN < 0),
        data_type_bytes(<u32 as ArrowType>::spec_data_type()) == vstd::layout::size_of::<u32>(),
        data_type_signed(<u32 as ArrowType>::spec_data_type()) == (u32::MIN < 0),
        data_type_bytes(<i64 as ArrowType>::spec_data_type()) == vstd::layout::size_of::<i64>(),
        data_type_signed(<i64 as ArrowType>::spec_data_type()) == (i64::MIN < 0),
        data_type_bytes(<u64 as ArrowType>::spec_data_type()) == vstd::layout::size_of::<u64>(),
        data_type_signed(<u64 as ArrowType>::spec_data_type()) == (u64::MIN < 0),
{
    broadcast use vstd::layout::layout_of_primitives;

    assert(vstd::layout::size_of::<i8>() == 1);
    assert(vstd::layout::size_of::<u8>() == 1);
    assert(vstd::layout::size_of::<i16>() == 2);
    assert(vstd::layout::size_of::<u16>() == 2);
    assert(vstd::layout::size_of::<i32>() == 4);
    assert(vstd::layout::size_of::<u32>() == 4);
    assert(vstd::layout::size_of::<i64>() == 8);
    assert(vstd::layout::size_of::<u64>() == 8);
}

/// The format string of an integer data type is one letter: lower case for
/// a signed type and upper case for an unsigned one.
pub proof fn lemma_integer_formats(t: PrimitiveType)
    requires
        data_type_bytes(t) > 0,
        t != PrimitiveType::Float32,
        t != PrimitiveType::Float64,
    ensures
        primitive_format(t).len() == 1,
        data_type_signed(t) <==> 97 <= primitive_format(t)[0] <= 122,
        !data_type_signed(t) <==> 65 <= primitive_format(t)[0] <= 90,
{
}

} // verus!
