//! Checks of imported Arrow C Data structures.
//!
//! An importer reads the scalar fields of an `ArrowSchema` and an
//! `ArrowArray`, and the contents of the buffers it needs (the validity
//! bitmap and the offsets); these are described by [`SchemaInfo`] and
//! [`ArrayInfo`]. The checks decide whether the structures describe the
//! expected layout, and which error is reported first when they do not.
use vstd::prelude::*;
use crate::bitmap::Bitmap;
use crate::bits::{bytes_for_bits, count_false};
use crate::ffi::format::{fixed_size_list_width, parse_fixed_size_list_width};
use crate::ffi::{ARROW_FLAG_NULLABLE, PrimitiveType, primitive_format};

verus! {

/// The memory layout that an import expects.
#[derive(Debug)]
pub enum Layout {
    /// Boolean values, stored as bits.
    Boolean { nullable: bool },
    /// Fixed-size primitive values.
    Primitive { data_type: PrimitiveType, nullable: bool },
    /// Lists of `size` items each, stored in one child array.
    FixedSizeList { size: usize, nullable: bool, child: Box<Layout> },
    /// Lists of any size, cut out of one child array by an offset buffer
    /// (`i64` offsets when `large`).
    VariableSizeList { large: bool, child: Box<Layout> },
}

/// The schema flags that a layout expects.
pub open spec fn layout_flags(layout: Layout) -> i64 {
    match layout {
        Layout::Boolean { nullable } => if nullable {
            ARROW_FLAG_NULLABLE
        } else {
            0
        },
        Layout::Primitive { nullable, .. } => if nullable {
            ARROW_FLAG_NULLABLE
        } else {
            0
        },
        Layout::FixedSizeList { nullable, .. } => if nullable {
            ARROW_FLAG_NULLABLE
        } else {
            0
        },
        Layout::VariableSizeList { .. } => 0,
    }
}

/// The number of buffers of a layout.
pub open spec fn layout_buffers(layout: Layout) -> i64 {
    match layout {
        Layout::FixedSizeList { .. } => 1,
        _ => 2,
    }
}

/// The number of children of a layout.
pub open spec fn layout_children(layout: Layout) -> i64 {
    match layout {
        Layout::FixedSizeList { .. } => 1,
        Layout::VariableSizeList { .. } => 1,
        _ => 0,
    }
}

/// The format string of a variable-size list: `+l`, or `+L` when large.
pub open spec fn list_format(large: bool) -> Seq<u8> {
    if large {
        seq![43u8, 76u8]
    } else {
        seq![43u8, 108u8]
    }
}

/// Whether a format string describes a layout.
pub open spec fn format_matches(layout: Layout, format: Seq<u8>) -> bool {
    match layout {
        Layout::Boolean { .. } => format == primitive_format(PrimitiveType::Boolean),
        Layout::Primitive { data_type, .. } => format == primitive_format(data_type),
        Layout::FixedSizeList { size, .. } => fixed_size_list_width(format) == Some(size),
        Layout::VariableSizeList { large, .. } => format == list_format(large),
    }
}

/// The alignment, in bytes, of the values of a primitive data type on this
/// platform: that of its integer type (a float has the alignment of the
/// unsigned integer of its width); boolean values are bits, stored in bytes.
pub open spec fn value_alignment(t: PrimitiveType) -> usize {
    match t {
        PrimitiveType::Boolean => 1,
        PrimitiveType::Int8 => vstd::layout::align_of_as_usize::<i8>(),
        PrimitiveType::UInt8 => vstd::layout::align_of_as_usize::<u8>(),
        PrimitiveType::Int16 => vstd::layout::align_of_as_usize::<i16>(),
        PrimitiveType::UInt16 => vstd::layout::align_of_as_usize::<u16>(),
        PrimitiveType::Int32 => vstd::layout::align_of_as_usize::<i32>(),
        PrimitiveType::UInt32 => vstd::layout::align_of_as_usize::<u32>(),
        PrimitiveType::Int64 => vstd::layout::align_of_as_usize::<i64>(),
        PrimitiveType::UInt64 => vstd::layout::align_of_as_usize::<u64>(),
        PrimitiveType::Float32 => vstd::layout::align_of_as_usize::<u32>(),
        PrimitiveType::Float64 => vstd::layout::align_of_as_usize::<u64>(),
    }
}

/// The alignment, in bytes, of the offsets of a variable-size list on this
/// platform: that of `i64` for a large list, of `i32` otherwise.
pub open spec fn offset_alignment(large: bool) -> usize {
    if large {
        vstd::layout::align_of_as_usize::<i64>()
    } else {
        vstd::layout::align_of_as_usize::<i32>()
    }
}

/// Returns the alignment, in bytes, of the offsets of a variable-size list
/// on this platform.
pub fn offset_alignment_of(large: bool) -> (r: usize)
    ensures
        r == offset_alignment(large),
{
    if large {
        core::mem::align_of::<i64>()
    } else {
        core::mem::align_of::<i32>()
    }
}

/// The fields of an `ArrowSchema` that an import reads.
#[derive(Debug)]
pub struct SchemaInfo {
    /// The release callback is unset.
    pub released: bool,
    /// The format string, or `None` for a null pointer.
    pub format: Option<Vec<u8>>,
    /// The schema flags.
    pub flags: i64,
    /// The declared number of children.
    pub n_children: i64,
    /// A dictionary is present.
    pub has_dictionary: bool,
    /// The child schemas (`None` entries are null pointers), or `None` for a
    /// null child pointer array.
    pub children: Option<Vec<Option<SchemaInfo>>>,
}

/// Why offsets are not valid for a list array.
#[derive(Clone, Copy, Debug, PartialEq, Eq)]
pub enum OffsetsError {
    /// There is not exactly one more offset than there are lists.
    InvalidLength {
        /// Number of offsets.
        offsets: usize,
    },
    /// The first offset is not zero.
    NonZeroStart {
        /// The first offset.
        first: i64,
    },
    /// An offset is smaller than the one before it.
    NonMonotonic {
        /// Index of the offending offset.
        index: usize,
    },
    /// The last offset is not the length of the child array.
    EndMismatch {
        /// The last offset.
        end: i64,
        /// The length of the child array.
        len: usize,
    },
}

/// Error returned when Arrow C Data cannot be borrowed as an array.
#[derive(Clone, Copy, Debug, PartialEq, Eq)]
pub enum ImportError {
    /// The Arrow array was already released.
    ReleasedArray,
    /// The Arrow schema was already released.
    ReleasedSchema,
    /// The Arrow schema does not contain a format string.
    MissingFormat,
    /// The Arrow format does not match the requested array type.
    UnexpectedFormat,
    /// The Arrow schema nullable flag does not match the imported layout.
    UnexpectedFlags {
        /// Schema flags supplied by the producer.
        flags: i64,
    },
    /// The Arrow array length is negative or does not fit in [`usize`].
    InvalidLength {
        /// Invalid array length supplied by the producer.
        length: i64,
    },
    /// The Arrow array has an unsupported offset.
    NonZeroOffset {
        /// Unsupported offset supplied by the producer.
        offset: i64,
    },
    /// The Arrow array null count does not match its length or layout.
    UnexpectedNullCount {
        /// Null count supplied by the producer.
        null_count: i64,
    },
    /// A nullable non-empty array does not contain a required validity buffer.
    MissingValidityBuffer,
    /// A nullable array's null count does not match its validity bitmap.
    NullCountMismatch {
        /// Null count supplied by the producer.
        declared: i64,
        /// Number of nulls found in the validity bitmap.
        actual: usize,
    },
    /// The Arrow array has an unexpected number of buffers.
    UnexpectedBufferCount {
        /// Buffer count supplied by the producer.
        count: i64,
    },
    /// The Arrow array has an unexpected number of children.
    UnexpectedArrayChildCount {
        /// Array child count supplied by the producer.
        count: i64,
    },
    /// The Arrow schema has an unexpected number of children.
    UnexpectedSchemaChildCount {
        /// Schema child count supplied by the producer.
        count: i64,
    },
    /// The Arrow array or schema contains an unexpected dictionary.
    UnexpectedDictionary,
    /// The Arrow array does not contain its buffer pointer array.
    MissingBufferPointers,
    /// The Arrow array does not contain its child pointer array.
    MissingArrayChildren,
    /// The Arrow schema does not contain its child pointer array.
    MissingSchemaChildren,
    /// The fixed-size-list width is not supported.
    UnsupportedFixedSizeListSize {
        /// Unsupported fixed-size-list width.
        size: usize,
    },
    /// A fixed-size-list child length does not match its parent.
    FixedSizeListLengthMismatch {
        /// Number of items in the parent array.
        length: usize,
        /// Number of items in the child array.
        child_length: usize,
        /// Number of child items per parent item.
        size: usize,
    },
    /// A non-empty offsets buffer is missing.
    MissingOffsetsBuffer,
    /// The offsets buffer is not aligned for its element type.
    MisalignedOffsetsBuffer {
        /// Required byte alignment of the offset type.
        alignment: usize,
    },
    /// An offsets buffer does not satisfy the offset invariants.
    InvalidOffsets {
        /// Offset invariant that was violated.
        error: OffsetsError,
    },
    /// A non-empty array does not contain a value buffer.
    MissingValuesBuffer,
    /// The primitive value buffer is not aligned for its element type.
    MisalignedValuesBuffer {
        /// Required byte alignment of the requested element type.
        alignment: usize,
    },
}

/// The first check that a schema fails for a layout, if any.
pub open spec fn schema_check(schema: SchemaInfo, layout: Layout) -> Result<(), ImportError>
    decreases layout, 0int,
{
    if schema.released {
        Err(ImportError::ReleasedSchema)
    } else if schema.format is None {
        Err(ImportError::MissingFormat)
    } else if !format_matches(layout, schema.format.unwrap()@) {
        Err(ImportError::UnexpectedFormat)
    } else if schema.flags & ARROW_FLAG_NULLABLE != layout_flags(layout) {
        Err(ImportError::UnexpectedFlags { flags: schema.flags })
    } else if schema.n_children != layout_children(layout) {
        Err(ImportError::UnexpectedSchemaChildCount { count: schema.n_children })
    } else if schema.has_dictionary {
        Err(ImportError::UnexpectedDictionary)
    } else if layout_children(layout) != 0 && schema.children is None {
        Err(ImportError::MissingSchemaChildren)
    } else {
        match layout {
            Layout::FixedSizeList { child, .. } => child_schema_check(schema, *child),
            Layout::VariableSizeList { child, .. } => child_schema_check(schema, *child),
            _ => Ok(()),
        }
    }
}

/// The first check that the first child schema fails for a child layout.
pub open spec fn child_schema_check(schema: SchemaInfo, child: Layout) -> Result<(), ImportError>
    decreases child, 1int,
{
    match schema.children {
        Some(children) => if children@.len() == 0 {
            Err(ImportError::MissingSchemaChildren)
        } else {
            match children@[0] {
                Some(child_schema) => schema_check(child_schema, child),
                None => Err(ImportError::MissingSchemaChildren),
            }
        },
        None => Err(ImportError::MissingSchemaChildren),
    }
}

/// Returns whether two byte strings are equal.
fn bytes_eq(a: &[u8], b: &[u8]) -> (r: bool)
    ensures
        r == (a@ == b@),
{
    if a.len() != b.len() {
        return false;
    }
    let mut i: usize = 0;
    while i < a.len()
        invariant
            i <= a@.len(),
            a@.len() == b@.len(),
            forall|j: int| 0 <= j < i ==> a@[j] == b@[j],
        decreases a@.len() - i,
    {
        if a[i] != b[i] {
            return false;
        }
        i = i + 1;
    }
    assert(a@ =~= b@);
    true
}

/// Returns the format string of a variable-size list.
pub fn list_format_bytes(large: bool) -> (r: Vec<u8>)
    ensures
        r@ == list_format(large),
{
    let mut r: Vec<u8> = Vec::new();
    r.push(43u8);
    if large {
        r.push(76u8);
    } else {
        r.push(108u8);
    }
    assert(r@ =~= list_format(large));
    r
}

impl Layout {
    /// Returns the schema flags that this layout expects.
    pub fn flags(&self) -> (r: i64)
        ensures
            r == layout_flags(*self),
    {
        let nullable = match self {
            Layout::Boolean { nullable } => *nullable,
            Layout::Primitive { nullable, .. } => *nullable,
            Layout::FixedSizeList { nullable, .. } => *nullable,
            Layout::VariableSizeList { .. } => false,
        };
        if nullable {
            ARROW_FLAG_NULLABLE
        } else {
            0
        }
    }

    /// Returns the number of buffers of this layout.
    pub fn buffers(&self) -> (r: i64)
        ensures
            r == layout_buffers(*self),
    {
        match self {
            Layout::FixedSizeList { .. } => 1,
            _ => 2,
        }
    }

    /// Returns the number of children of this layout.
    pub fn children(&self) -> (r: i64)
        ensures
            r == layout_children(*self),
    {
        match self {
            Layout::FixedSizeList { .. } => 1,
            Layout::VariableSizeList { .. } => 1,
            _ => 0,
        }
    }

    /// Returns whether a format string describes this layout.
    pub fn matches_format(&self, format: &[u8]) -> (r: bool)
        ensures
            r == format_matches(*self, format@),
    {
        match self {
            Layout::Boolean { .. } => {
                let expected = PrimitiveType::Boolean.format();
                bytes_eq(format, expected.as_slice())
            },
            Layout::Primitive { data_type, .. } => {
                let expected = data_type.format();
                bytes_eq(format, expected.as_slice())
            },
            Layout::FixedSizeList { size, .. } => {
                match parse_fixed_size_list_width(format) {
                    Some(width) => width == *size,
                    None => false,
                }
            },
            Layout::VariableSizeList { large, .. } => {
                let expected = list_format_bytes(*large);
                bytes_eq(format, expected.as_slice())
            },
        }
    }
}

/// Validates a schema for a layout: returns the error of the first check
/// that fails.
pub fn validate_schema(schema: &SchemaInfo, layout: &Layout) -> (r: Result<(), ImportError>)
    ensures
        r == schema_check(*schema, *layout),
    decreases *layout, 0int,
{
    if schema.released {
        return Err(ImportError::ReleasedSchema);
    }
    let format = match &schema.format {
        Some(format) => format,
        None => {
            return Err(ImportError::MissingFormat);
        },
    };
    if !layout.matches_format(format.as_slice()) {
        return Err(ImportError::UnexpectedFormat);
    }
    if schema.flags & ARROW_FLAG_NULLABLE != layout.flags() {
        return Err(ImportError::UnexpectedFlags { flags: schema.flags });
    }
    if schema.n_children != layout.children() {
        return Err(ImportError::UnexpectedSchemaChildCount { count: schema.n_children });
    }
    if schema.has_dictionary {
        return Err(ImportError::UnexpectedDictionary);
    }
    if layout.children() != 0 && schema.children.is_none() {
        return Err(ImportError::MissingSchemaChildren);
    }
    match layout {
        Layout::FixedSizeList { child, .. } => validate_child_schema(schema, child),
        Layout::VariableSizeList { child, .. } => validate_child_schema(schema, child),
        _ => Ok(()),
    }
}

/// Validates the first child schema for a child layout.
fn validate_child_schema(schema: &SchemaInfo, child: &Layout) -> (r: Result<(), ImportError>)
    ensures
        r == child_schema_check(*schema, *child),
    decreases *child, 1int,
{
    match &schema.children {
        Some(children) => {
            if children.len() == 0 {
                Err(ImportError::MissingSchemaChildren)
            } else {
                match &children[0] {
                    Some(child_schema) => validate_schema(child_schema, child),
                    None => Err(ImportError::MissingSchemaChildren),
                }
            }
        },
        None => Err(ImportError::MissingSchemaChildren),
    }
}

/// The fields of an `ArrowArray` that an import reads, and the contents of
/// the buffers whose values it checks.
#[derive(Debug)]
pub struct ArrayInfo {
    /// The release callback is unset.
    pub released: bool,
    /// The declared length.
    pub length: i64,
    /// The declared null count (`-1` when unknown).
    pub null_count: i64,
    /// The declared offset.
    pub offset: i64,
    /// The declared number of buffers.
    pub n_buffers: i64,
    /// The declared number of children.
    pub n_children: i64,
    /// A dictionary is present.
    pub has_dictionary: bool,
    /// The buffer pointer array is present.
    pub has_buffers: bool,
    /// The bytes of the validity buffer, or `None` for a null pointer.
    pub validity: Option<Vec<u8>>,
    /// The value buffer pointer is present.
    pub has_values: bool,
    /// The value buffer is aligned for its element type.
    pub values_aligned: bool,
    /// The offset values, or `None` for a null offsets buffer.
    pub offsets: Option<Vec<i64>>,
    /// The offsets buffer is aligned for its element type.
    pub offsets_aligned: bool,
    /// The child arrays (`None` entries are null pointers), or `None` for a
    /// null child pointer array.
    pub children: Option<Vec<Option<ArrayInfo>>>,
}

/// The index of the first offset that is smaller than the one before it.
pub open spec fn first_decrease(offsets: Seq<i64>) -> Option<int>
    decreases offsets.len(),
{
    if offsets.len() < 2 {
        None
    } else {
        match first_decrease(offsets.drop_last()) {
            Some(i) => Some(i),
            None => if offsets.last() < offsets[offsets.len() - 2] {
                Some(offsets.len() - 1)
            } else {
                None
            },
        }
    }
}

/// The first check that the offsets of `length` lists over a child array
/// of `child_len` items fail, if any.
pub open spec fn offsets_check(offsets: Seq<i64>, length: nat, child_len: nat) -> Result<
    (),
    OffsetsError,
> {
    if offsets.len() != length + 1 {
        Err(OffsetsError::InvalidLength { offsets: offsets.len() as usize })
    } else if offsets[0] != 0 {
        Err(OffsetsError::NonZeroStart { first: offsets[0] })
    } else if first_decrease(offsets) is Some {
        Err(OffsetsError::NonMonotonic { index: first_decrease(offsets).unwrap() as usize })
    } else if offsets.last() != child_len {
        Err(OffsetsError::EndMismatch { end: offsets.last(), len: child_len as usize })
    } else {
        Ok(())
    }
}

/// Without a decrease, offsets never decrease.
pub proof fn lemma_first_decrease(offsets: Seq<i64>)
    ensures
        first_decrease(offsets) is None <==> forall|i: int, j: int|
            0 <= i <= j < offsets.len() ==> offsets[i] <= offsets[j],
        first_decrease(offsets) matches Some(k) ==> 0 < k < offsets.len() && offsets[k]
            < offsets[k - 1],
    decreases offsets.len(),
{
    if offsets.len() >= 2 {
        let prefix = offsets.drop_last();
        lemma_first_decrease(prefix);
        if first_decrease(prefix) is None && offsets.last() >= offsets[offsets.len() - 2] {
            assert forall|i: int, j: int| 0 <= i <= j < offsets.len() implies offsets[i]
                <= offsets[j] by {
                if j == offsets.len() - 1 && i < j {
                    assert(prefix[i] <= prefix[offsets.len() - 2]);
                } else if j < offsets.len() - 1 {
                    assert(prefix[i] <= prefix[j]);
                }
            }
        } else if let Some(k) = first_decrease(prefix) {
            assert(prefix[k] < prefix[k - 1]);
        }
    }
}

/// Offsets pass the checks exactly when they start at zero, never decrease
/// and end at the length of the child array.
pub proof fn lemma_offsets_check(offsets: Seq<i64>, length: nat, child_len: nat)
    ensures
        offsets_check(offsets, length, child_len) is Ok <==> (offsets.len() == length + 1
            && crate::offset::offsets_wf(
            offsets.map_values(|o: i64| o as int),
            child_len,
        )),
{
    lemma_first_decrease(offsets);
    let ints = offsets.map_values(|o: i64| o as int);
    if offsets.len() == length + 1 {
        assert(ints.len() == offsets.len());
        assert(forall|i: int| 0 <= i < offsets.len() ==> ints[i] == offsets[i] as int);
        if let Some(k) = first_decrease(offsets) {
            assert(ints[k] < ints[k - 1]);
        }
    }
}

/// Validates the offsets of `length` lists over a child array of
/// `child_len` items.
pub fn validate_offsets(offsets: &[i64], length: usize, child_len: usize) -> (r: Result<
    (),
    OffsetsError,
>)
    ensures
        r == offsets_check(offsets@, length as nat, child_len as nat),
{
    if offsets.len() == 0 || offsets.len() - 1 != length {
        return Err(OffsetsError::InvalidLength { offsets: offsets.len() });
    }
    if offsets[0] != 0 {
        return Err(OffsetsError::NonZeroStart { first: offsets[0] });
    }
    let mut i: usize = 1;
    while i < offsets.len()
        invariant
            1 <= i <= offsets@.len(),
            offsets@.len() == length + 1,
            offsets@[0] == 0,
            first_decrease(offsets@.take(i as int)) is None,
        decreases offsets@.len() - i,
    {
        proof {
            assert(offsets@.take(i + 1).drop_last() =~= offsets@.take(i as int));
        }
        if offsets[i] < offsets[i - 1] {
            proof {
                let t = offsets@.take(i + 1);
                assert(t.drop_last() =~= offsets@.take(i as int));
                assert(t.last() < t[t.len() - 2]);
                assert(first_decrease(t) == Some(i as int));
                lemma_first_decrease_prefix(offsets@, i + 1);
            }
            return Err(OffsetsError::NonMonotonic { index: i });
        }
        i = i + 1;
    }
    assert(offsets@.take(i as int) =~= offsets@);
    let last = offsets[offsets.len() - 1];
    if last < 0 || last as u64 != child_len as u64 {
        return Err(OffsetsError::EndMismatch { end: last, len: child_len });
    }
    Ok(())
}

/// A decrease in a prefix is the first decrease of the whole sequence.
pub proof fn lemma_first_decrease_prefix(offsets: Seq<i64>, n: int)
    requires
        2 <= n <= offsets.len(),
        first_decrease(offsets.take(n)) is Some,
    ensures
        first_decrease(offsets) == first_decrease(offsets.take(n)),
    decreases offsets.len() - n,
{
    if n < offsets.len() {
        assert(offsets.take(n + 1).drop_last() =~= offsets.take(n));
        assert(first_decrease(offsets.take(n + 1)) == first_decrease(offsets.take(n)));
        lemma_first_decrease_prefix(offsets, n + 1);
    } else {
        assert(offsets.take(n) =~= offsets);
    }
}

/// The bits of the first `bits` positions of a byte sequence.
pub open spec fn bits_of(bytes: Seq<u8>, bits: nat) -> Seq<bool> {
    Seq::new(bits, |i: int| crate::bits::bit_at(bytes, i))
}

/// The first check of the validity of a nullable layout that fails, or the
/// length.
pub open spec fn validity_check(array: ArrayInfo, nullable: bool, length: usize) -> Result<
    usize,
    ImportError,
> {
    if !nullable {
        Ok(length)
    } else {
        match array.validity {
            None => if array.null_count == 0 || length == 0 {
                Ok(length)
            } else {
                Err(ImportError::MissingValidityBuffer)
            },
            Some(bytes) => if bytes@.len() != bytes_for_bits(length as nat) || 8 * bytes@.len()
                > usize::MAX {
                Err(ImportError::MissingValidityBuffer)
            } else if array.null_count >= 0 && array.null_count != count_false(
                bits_of(bytes@, length as nat),
            ) {
                Err(
                    ImportError::NullCountMismatch {
                        declared: array.null_count,
                        actual: count_false(bits_of(bytes@, length as nat)) as usize,
                    },
                )
            } else {
                Ok(length)
            },
        }
    }
}

/// The first check of the fields common to all layouts that fails.
pub open spec fn common_check(array: ArrayInfo, layout: Layout) -> Result<(), ImportError> {
    if array.released {
        Err(ImportError::ReleasedArray)
    } else if array.length < 0 || array.length > usize::MAX {
        Err(ImportError::InvalidLength { length: array.length })
    } else if array.offset != 0 {
        Err(ImportError::NonZeroOffset { offset: array.offset })
    } else if array.null_count < -1 || array.null_count > array.length || (layout_flags(layout)
        == 0 && array.null_count > 0) {
        Err(ImportError::UnexpectedNullCount { null_count: array.null_count })
    } else if array.n_buffers != layout_buffers(layout) {
        Err(ImportError::UnexpectedBufferCount { count: array.n_buffers })
    } else if array.n_children != layout_children(layout) {
        Err(ImportError::UnexpectedArrayChildCount { count: array.n_children })
    } else if array.has_dictionary {
        Err(ImportError::UnexpectedDictionary)
    } else if layout_buffers(layout) != 0 && !array.has_buffers {
        Err(ImportError::MissingBufferPointers)
    } else if layout_children(layout) != 0 && array.children is None {
        Err(ImportError::MissingArrayChildren)
    } else {
        Ok(())
    }
}

/// The first check that an array fails for a layout, or its length.
pub open spec fn array_check(array: ArrayInfo, layout: Layout) -> Result<usize, ImportError>
    decreases layout, 0int,
{
    match common_check(array, layout) {
        Err(e) => Err(e),
        Ok(()) => {
            let length = array.length as usize;
            match layout {
                Layout::Boolean { nullable } => if bytes_for_bits(length as nat) != 0
                    && !array.has_values {
                    Err(ImportError::MissingValuesBuffer)
                } else {
                    validity_check(array, nullable, length)
                },
                Layout::Primitive { data_type, nullable } => if length != 0 && !array.has_values {
                    Err(ImportError::MissingValuesBuffer)
                } else if length != 0 && !array.values_aligned {
                    Err(
                        ImportError::MisalignedValuesBuffer {
                            alignment: value_alignment(data_type),
                        },
                    )
                } else {
                    validity_check(array, nullable, length)
                },
                Layout::FixedSizeList { size, nullable, child } => if size == 0 {
                    Err(ImportError::UnsupportedFixedSizeListSize { size })
                } else {
                    match child_array_check(array, *child) {
                        Err(e) => Err(e),
                        Ok(child_length) => if length * size != child_length {
                            Err(
                                ImportError::FixedSizeListLengthMismatch {
                                    length,
                                    child_length,
                                    size,
                                },
                            )
                        } else {
                            validity_check(array, nullable, length)
                        },
                    }
                },
                Layout::VariableSizeList { large, child } => if length + 1 > usize::MAX {
                    Err(ImportError::InvalidLength { length: array.length })
                } else if array.offsets is None {
                    Err(ImportError::MissingOffsetsBuffer)
                } else if !array.offsets_aligned {
                    Err(ImportError::MisalignedOffsetsBuffer { alignment: offset_alignment(large) })
                } else {
                    match child_array_check(array, *child) {
                        Err(e) => Err(e),
                        Ok(child_length) => match offsets_check(
                            array.offsets.unwrap()@,
                            length as nat,
                            child_length as nat,
                        ) {
                            Err(error) => Err(ImportError::InvalidOffsets { error }),
                            Ok(()) => Ok(length),
                        },
                    }
                },
            }
        },
    }
}

/// The first check that the first child array fails for a child layout,
/// or its length.
pub open spec fn child_array_check(array: ArrayInfo, child: Layout) -> Result<usize, ImportError>
    decreases child, 1int,
{
    match array.children {
        Some(children) => if children@.len() == 0 {
            Err(ImportError::MissingArrayChildren)
        } else {
            match children@[0] {
                Some(child_array) => array_check(child_array, child),
                None => Err(ImportError::MissingArrayChildren),
            }
        },
        None => Err(ImportError::MissingArrayChildren),
    }
}

/// Checks the validity of a nullable layout.
fn validate_validity(array: &ArrayInfo, nullable: bool, length: usize) -> (r: Result<
    usize,
    ImportError,
>)
    ensures
        r == validity_check(*array, nullable, length),
{
    if !nullable {
        return Ok(length);
    }
    match &array.validity {
        None => {
            if array.null_count == 0 || length == 0 {
                Ok(length)
            } else {
                Err(ImportError::MissingValidityBuffer)
            }
        },
        Some(bytes) => {
            match Bitmap::from_bytes(bytes.as_slice(), length) {
                None => Err(ImportError::MissingValidityBuffer),
                Some(bitmap) => {
                    let actual = bitmap.false_count();
                    assert(bitmap@ =~= bits_of(bytes@, length as nat));
                    if array.null_count >= 0 && array.null_count as u64 != actual as u64 {
                        Err(ImportError::NullCountMismatch { declared: array.null_count, actual })
                    } else {
                        Ok(length)
                    }
                },
            }
        },
    }
}

/// Checks the fields common to all layouts.
fn validate_common(array: &ArrayInfo, layout: &Layout) -> (r: Result<(), ImportError>)
    ensures
        r == common_check(*array, *layout),
{
    if array.released {
        return Err(ImportError::ReleasedArray);
    }
    if array.length < 0 || array.length as u64 > usize::MAX as u64 {
        return Err(ImportError::InvalidLength { length: array.length });
    }
    if array.offset != 0 {
        return Err(ImportError::NonZeroOffset { offset: array.offset });
    }
    if array.null_count < -1 || array.null_count > array.length || (layout.flags() == 0
        && array.null_count > 0) {
        return Err(ImportError::UnexpectedNullCount { null_count: array.null_count });
    }
    if array.n_buffers != layout.buffers() {
        return Err(ImportError::UnexpectedBufferCount { count: array.n_buffers });
    }
    if array.n_children != layout.children() {
        return Err(ImportError::UnexpectedArrayChildCount { count: array.n_children });
    }
    if array.has_dictionary {
        return Err(ImportError::UnexpectedDictionary);
    }
    if layout.buffers() != 0 && !array.has_buffers {
        return Err(ImportError::MissingBufferPointers);
    }
    if layout.children() != 0 && array.children.is_none() {
        return Err(ImportError::MissingArrayChildren);
    }
    Ok(())
}

/// Validates an array for a layout: returns the error of the first check
/// that fails, or the length of the array.
pub fn validate_array(array: &ArrayInfo, layout: &Layout) -> (r: Result<usize, ImportError>)
    ensures
        r == array_check(*array, *layout),
    decreases *layout, 0int,
{
    match validate_common(array, layout) {
        Err(e) => {
            return Err(e);
        },
        Ok(()) => {},
    }
    let length = array.length as usize;
    match layout {
        Layout::Boolean { nullable } => {
            let byte_length = length / 8 + if length % 8 != 0 {
                1
            } else {
                0
            };
            if byte_length != 0 && !array.has_values {
                return Err(ImportError::MissingValuesBuffer);
            }
            validate_validity(array, *nullable, length)
        },
        Layout::Primitive { data_type, nullable } => {
            if length != 0 && !array.has_values {
                return Err(ImportError::MissingValuesBuffer);
            }
            if length != 0 && !array.values_aligned {
                return Err(
                    ImportError::MisalignedValuesBuffer { alignment: alignment_of(data_type) },
                );
            }
            validate_validity(array, *nullable, length)
        },
        Layout::FixedSizeList { size, nullable, child } => {
            if *size == 0 {
                return Err(ImportError::UnsupportedFixedSizeListSize { size: *size });
            }
            let child_length = match validate_child_array(array, child) {
                Err(e) => {
                    return Err(e);
                },
                Ok(child_length) => child_length,
            };
            match length.checked_mul(*size) {
                Some(total) => {
                    if total != child_length {
                        return Err(
                            ImportError::FixedSizeListLengthMismatch {
                                length,
                                child_length,
                                size: *size,
                            },
                        );
                    }
                },
                None => {
                    return Err(
                        ImportError::FixedSizeListLengthMismatch {
                            length,
                            child_length,
                            size: *size,
                        },
                    );
                },
            }
            validate_validity(array, *nullable, length)
        },
        Layout::VariableSizeList { large, child } => {
            if length == usize::MAX {
                return Err(ImportError::InvalidLength { length: array.length });
            }
            let offsets = match &array.offsets {
                Some(offsets) => offsets,
                None => {
                    return Err(ImportError::MissingOffsetsBuffer);
                },
            };
            if !array.offsets_aligned {
                let alignment = offset_alignment_of(*large);
                return Err(ImportError::MisalignedOffsetsBuffer { alignment });
            }
            let child_length = match validate_child_array(array, child) {
                Err(e) => {
                    return Err(e);
                },
                Ok(child_length) => child_length,
            };
            match validate_offsets(offsets.as_slice(), length, child_length) {
                Err(error) => Err(ImportError::InvalidOffsets { error }),
                Ok(()) => Ok(length),
            }
        },
    }
}

/// Validates the first child array for a child layout.
fn validate_child_array(array: &ArrayInfo, child: &Layout) -> (r: Result<usize, ImportError>)
    ensures
        r == child_array_check(*array, *child),
    decreases *child, 1int,
{
    match &array.children {
        Some(children) => {
            if children.len() == 0 {
                Err(ImportError::MissingArrayChildren)
            } else {
                match &children[0] {
                    Some(child_array) => validate_array(child_array, child),
                    None => Err(ImportError::MissingArrayChildren),
                }
            }
        },
        None => Err(ImportError::MissingArrayChildren),
    }
}

/// Returns the alignment, in bytes, of the values of a primitive data type
/// on this platform.
pub fn alignment_of(t: &PrimitiveType) -> (r: usize)
    ensures
        r == value_alignment(*t),
{
    match t {
        PrimitiveType::Boolean => 1,
        PrimitiveType::Int8 => core::mem::align_of::<i8>(),
        PrimitiveType::UInt8 => core::mem::align_of::<u8>(),
        PrimitiveType::Int16 => core::mem::align_of::<i16>(),
        PrimitiveType::UInt16 => core::mem::align_of::<u16>(),
        PrimitiveType::Int32 => core::mem::align_of::<i32>(),
        PrimitiveType::UInt32 => core::mem::align_of::<u32>(),
        PrimitiveType::Int64 => core::mem::align_of::<i64>(),
        PrimitiveType::UInt64 => core::mem::align_of::<u64>(),
        PrimitiveType::Float32 => core::mem::align_of::<u32>(),
        PrimitiveType::Float64 => core::mem::align_of::<u64>(),
    }
}

/// Whether a layout carries a validity bitmap.
pub open spec fn layout_nullable(layout: Layout) -> bool {
    match layout {
        Layout::Boolean { nullable } => nullable,
        Layout::Primitive { nullable, .. } => nullable,
        Layout::FixedSizeList { nullable, .. } => nullable,
        Layout::VariableSizeList { .. } => false,
    }
}

/// The validity of the items of an imported array: `None` for a layout
/// without validity; for a nullable layout, the first `length` bits of the
/// validity buffer, or all items valid when there is no validity buffer.
pub open spec fn imported_validity(array: ArrayInfo, nullable: bool, length: nat) -> Option<
    Seq<bool>,
> {
    if !nullable {
        None
    } else {
        match array.validity {
            None => Some(Seq::new(length, |i: int| true)),
            Some(bytes) => Some(bits_of(bytes@, length)),
        }
    }
}

/// How the validity of an imported array is held.
#[derive(Debug)]
pub enum ImportedValidity {
    /// The layout has no validity bitmap.
    NonNullable,
    /// The array has no validity buffer: every item is valid.
    AllValid,
    /// The validity bits read from the validity buffer.
    Bits(Bitmap),
}

/// An imported array, as far as its scalar fields and validity go.
#[derive(Debug)]
pub struct ImportedArray {
    /// The number of items.
    pub length: usize,
    /// The validity of the items.
    pub validity: ImportedValidity,
}

impl ImportedArray {
    /// The validity of each item, or `None` for a layout without validity.
    pub open spec fn validity_bits(&self) -> Option<Seq<bool>> {
        match self.validity {
            ImportedValidity::NonNullable => None,
            ImportedValidity::AllValid => Some(Seq::new(self.length as nat, |i: int| true)),
            ImportedValidity::Bits(bitmap) => Some(bitmap@),
        }
    }

    /// A bitmap of validity bits covers exactly the items.
    pub open spec fn wf(&self) -> bool {
        self.validity matches ImportedValidity::Bits(bitmap) ==> bitmap.wf() && bitmap@.len()
            == self.length
    }

    /// The number of null items.
    pub open spec fn spec_null_count(&self) -> nat {
        match self.validity_bits() {
            Some(bits) => count_false(bits),
            None => 0,
        }
    }

    /// Returns the number of items.
    pub fn len(&self) -> (r: usize)
        ensures
            r == self.length,
    {
        self.length
    }

    /// Returns the number of null items.
    pub fn null_count(&self) -> (r: usize)
        requires
            self.wf(),
        ensures
            r == self.spec_null_count(),
    {
        match &self.validity {
            ImportedValidity::NonNullable => 0,
            ImportedValidity::AllValid => {
                proof {
                    lemma_count_false_all_true(self.length as nat);
                }
                0
            },
            ImportedValidity::Bits(bitmap) => bitmap.false_count(),
        }
    }

    /// Returns whether item `index` is valid, or `None` when the index is
    /// out of bounds.
    pub fn is_valid(&self, index: usize) -> (r: Option<bool>)
        requires
            self.wf(),
        ensures
            r == (if index < self.length {
                Some(
                    match self.validity_bits() {
                        Some(bits) => bits[index as int],
                        None => true,
                    },
                )
            } else {
                None
            }),
    {
        if index >= self.length {
            return None;
        }
        match &self.validity {
            ImportedValidity::NonNullable => Some(true),
            ImportedValidity::AllValid => Some(true),
            ImportedValidity::Bits(bitmap) => Some(bitmap.get_unchecked(index)),
        }
    }
}

/// All-valid items have no null item.
pub proof fn lemma_count_false_all_true(n: nat)
    ensures
        count_false(Seq::new(n, |i: int| true)) == 0,
    decreases n,
{
    if n > 0 {
        lemma_count_false_all_true((n - 1) as nat);
        assert(Seq::new(n, |i: int| true).drop_last() =~= Seq::new((n - 1) as nat, |i: int| true));
    }
}

/// Reads the validity of an array whose validity checks passed.
fn read_validity(array: &ArrayInfo, nullable: bool, length: usize) -> (r: ImportedValidity)
    requires
        validity_check(*array, nullable, length) is Ok,
    ensures
        (ImportedArray { length, validity: r }).wf(),
        (ImportedArray { length, validity: r }).validity_bits() == imported_validity(
            *array,
            nullable,
            length as nat,
        ),
{
    if !nullable {
        return ImportedValidity::NonNullable;
    }
    match &array.validity {
        None => ImportedValidity::AllValid,
        Some(bytes) => match Bitmap::from_bytes(bytes.as_slice(), length) {
            Some(bitmap) => {
                assert(bitmap@ =~= bits_of(bytes@, length as nat));
                ImportedValidity::Bits(bitmap)
            },
            None => ImportedValidity::AllValid,
        },
    }
}

/// Validates an array for a layout and imports it: returns the error of the
/// first check that fails, or its length and the validity of its items.
pub fn import_array(array: &ArrayInfo, layout: &Layout) -> (r: Result<ImportedArray, ImportError>)
    ensures
        r is Ok <==> array_check(*array, *layout) is Ok,
        r matches Err(e) ==> array_check(*array, *layout) == Err::<usize, ImportError>(e),
        r matches Ok(a) ==> {
            &&& array_check(*array, *layout) == Ok::<usize, ImportError>(a.length)
            &&& a.wf()
            &&& a.validity_bits() == imported_validity(
                *array,
                layout_nullable(*layout),
                a.length as nat,
            )
            &&& array.null_count >= 0 ==> a.spec_null_count() == array.null_count
        },
{
    match validate_array(array, layout) {
        Err(e) => Err(e),
        Ok(length) => {
            let nullable = match layout {
                Layout::Boolean { nullable } => *nullable,
                Layout::Primitive { nullable, .. } => *nullable,
                Layout::FixedSizeList { nullable, .. } => *nullable,
                Layout::VariableSizeList { .. } => false,
            };
            assert(validity_check(*array, nullable, length) == Ok::<usize, ImportError>(length));
            let validity = read_validity(array, nullable, length);
            let r = ImportedArray { length, validity };
            proof {
                if array.null_count >= 0 && array.validity is None {
                    lemma_count_false_all_true(length as nat);
                }
            }
            Ok(r)
        },
    }
}

/// A reusable importer for a validated schema: it imports any number of
/// arrays of its layout. The schema is not retained.
pub struct Importer {
    /// The layout that the schema describes.
    layout: Layout,
}

impl Importer {
    /// The layout of the arrays that this importer imports.
    pub closed spec fn layout(&self) -> Layout {
        self.layout
    }

    /// Validates a schema for a layout, and returns an importer for it.
    pub fn try_new(schema: &SchemaInfo, layout: Layout) -> (r: Result<Importer, ImportError>)
        ensures
            r is Ok <==> schema_check(*schema, layout) is Ok,
            r matches Ok(importer) ==> importer.layout() == layout,
            r matches Err(e) ==> schema_check(*schema, layout) == Err::<(), ImportError>(e),
    {
        match validate_schema(schema, &layout) {
            Ok(()) => Ok(Importer { layout }),
            Err(e) => Err(e),
        }
    }

    /// Validates an array without revalidating the schema, and imports it:
    /// returns the error of the first check that fails, or its length and
    /// the validity of its items.
    pub fn import(&self, array: &ArrayInfo) -> (r: Result<ImportedArray, ImportError>)
        ensures
            r is Ok <==> array_check(*array, self.layout()) is Ok,
            r matches Err(e) ==> array_check(*array, self.layout()) == Err::<usize, ImportError>(
                e,
            ),
            r matches Ok(a) ==> {
                &&& array_check(*array, self.layout()) == Ok::<usize, ImportError>(a.length)
                &&& a.wf()
                &&& a.validity_bits() == imported_validity(
                    *array,
                    layout_nullable(self.layout()),
                    a.length as nat,
                )
                &&& array.null_count >= 0 ==> a.spec_null_count() == array.null_count
            },
    {
        import_array(array, &self.layout)
    }
}

} // verus!
