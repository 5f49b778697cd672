//! What an export through the Arrow C Data Interface produces: the schema
//! of a layout, and the fields of an exported array.
use vstd::prelude::*;
use crate::bitmap::Bitmap;
use crate::bits::count_false;
use crate::boolean::BooleanArray;
use crate::ffi::format::{decimal, fixed_size_list_format, fixed_size_list_prefix};
use crate::arrow::Offset;
use crate::ffi::import::{
    ArrayInfo, Layout, SchemaInfo, array_check, bits_of, child_array_check, common_check,
    layout_children, layout_flags, lemma_offsets_check, list_format, list_format_bytes,
    schema_check, validity_check,
};
use crate::ffi::{ArrowType, PrimitiveType, primitive_format};
use crate::fixed_size::FixedSize;
use crate::fixed_size_list::FixedSizeListArray;
use crate::fixed_size_primitive::FixedSizePrimitiveArray;
use crate::offset::offset_ints;
use crate::validity::{NonNullable, Nullability, count_none, lemma_count_none, presence};
use crate::variable_size_list::VariableSizeListArray;

verus! {

/// Error returned when an array cannot be exported.
#[derive(Clone, Copy, Debug, PartialEq, Eq)]
pub enum ExportError {
    /// The array has a non-zero offset, which is not currently supported.
    NonZeroOffset {
        /// Unsupported array offset.
        offset: usize,
    },
}

/// The fields of an exported array that carries its values in a buffer of
/// its own and has no children: no offset, a validity and a values buffer,
/// no dictionary and no offsets.
pub open spec fn leaf_fields(r: ArrayInfo) -> bool {
    &&& !r.released
    &&& r.offset == 0
    &&& r.n_buffers == 2
    &&& r.n_children == 0
    &&& !r.has_dictionary
    &&& r.has_buffers
    &&& r.has_values
    &&& r.values_aligned
    &&& r.offsets is None
    &&& r.offsets_aligned
    &&& r.children is None
}

/// The exported array has exactly one child array, `child`.
pub open spec fn only_child(r: ArrayInfo, child: ArrayInfo) -> bool {
    r.children matches Some(cs) && cs@.len() == 1 && cs@[0] == Some(child)
}

/// The format string that an export writes for a layout.
pub open spec fn layout_format(layout: Layout) -> Seq<u8> {
    match layout {
        Layout::Boolean { .. } => primitive_format(PrimitiveType::Boolean),
        Layout::Primitive { data_type, .. } => primitive_format(data_type),
        Layout::FixedSizeList { size, .. } => fixed_size_list_prefix() + decimal(size as nat),
        Layout::VariableSizeList { large, .. } => list_format(large),
    }
}

/// The schema describes the layout at every level: its format string, flags
/// and number of children are those of the layout, it is not released and
/// has no dictionary, and its child schemas describe the child layouts (a
/// layout without children has no child pointer array).
pub open spec fn schema_describes(schema: SchemaInfo, layout: Layout) -> bool
    decreases layout,
{
    &&& !schema.released
    &&& schema.format matches Some(format) && format@ == layout_format(layout)
    &&& schema.flags == layout_flags(layout)
    &&& schema.n_children == layout_children(layout)
    &&& !schema.has_dictionary
    &&& match layout {
        Layout::FixedSizeList { child, .. } => match schema.children {
            Some(cs) => cs@.len() == 1 && match cs@[0] {
                Some(c) => schema_describes(c, *child),
                None => false,
            },
            None => false,
        },
        Layout::VariableSizeList { child, .. } => match schema.children {
            Some(cs) => cs@.len() == 1 && match cs@[0] {
                Some(c) => schema_describes(c, *child),
                None => false,
            },
            None => false,
        },
        _ => schema.children is None,
    }
}

/// Returns the schema that an export of a layout produces: its format
/// string, flags and child schemas. The importer accepts it for the same
/// layout.
pub fn export_schema(layout: &Layout) -> (r: SchemaInfo)
    ensures
        schema_check(r, *layout) == Ok::<(), crate::ffi::import::ImportError>(()),
        schema_describes(r, *layout),
        r.format matches Some(format) && format@ == layout_format(*layout),
        r.flags == layout_flags(*layout),
        r.n_children == layout_children(*layout),
        !r.released,
        !r.has_dictionary,
    decreases *layout,
{
    let format = match layout {
        Layout::Boolean { .. } => PrimitiveType::Boolean.format(),
        Layout::Primitive { data_type, .. } => data_type.format(),
        Layout::FixedSizeList { size, .. } => fixed_size_list_format(*size),
        Layout::VariableSizeList { large, .. } => list_format_bytes(*large),
    };
    let children = match layout {
        Layout::FixedSizeList { child, .. } => {
            let mut children: Vec<Option<SchemaInfo>> = Vec::new();
            children.push(Some(export_schema(child)));
            Some(children)
        },
        Layout::VariableSizeList { child, .. } => {
            let mut children: Vec<Option<SchemaInfo>> = Vec::new();
            children.push(Some(export_schema(child)));
            Some(children)
        },
        _ => None,
    };
    let flags = layout.flags();
    let r = SchemaInfo {
        released: false,
        format: Some(format),
        flags,
        n_children: layout.children(),
        has_dictionary: false,
        children,
    };
    proof {
        assert(flags & 2 == flags) by (bit_vector)
            requires
                flags == 0 || flags == 2,
        ;
    }
    r
}

/// Returns the fields of an exported primitive array: its length, null
/// count and buffers. The length must fit an `i64`.
pub fn export_primitive<T: FixedSize + ArrowType, N: Nullability>(
    array: &FixedSizePrimitiveArray<T, N>,
) -> (r: ArrayInfo)
    requires
        array.wf(),
        array@.len() <= i64::MAX,
    ensures
        r.length == array@.len(),
        r.null_count == count_none(array@),
        r.validity is Some <==> N::nullable(),
        r.validity matches Some(bytes) ==> bytes@ == array.validity().unwrap().bytes(),
        leaf_fields(r),
        array_check(
            r,
            Layout::Primitive { data_type: T::spec_data_type(), nullable: N::nullable() },
        ) == Ok::<usize, crate::ffi::import::ImportError>(array@.len() as usize),
{
    let length = array.len();
    let (validity, null_count) = match array.validity_bitmap() {
        Some(bitmap) => {
            let nulls = bitmap.false_count();
            proof {
                assert(bitmap@ =~= presence(array@));
                lemma_count_none(array@, presence(array@));
                assert(bits_of(bitmap.bytes(), length as nat) =~= bitmap@);
                crate::bits::lemma_count_true_false(bitmap@);
                assert(nulls <= length);
            }
            (Some(vstd::slice::slice_to_vec(bitmap.as_bytes())), nulls as i64)
        },
        None => {
            proof {
                lemma_count_none_all_valid(array@);
                assert(!N::nullable());
            }
            (None, 0i64)
        },
    };
    let r = ArrayInfo {
        released: false,
        length: length as i64,
        null_count,
        offset: 0,
        n_buffers: 2,
        n_children: 0,
        has_dictionary: false,
        has_buffers: true,
        validity,
        has_values: true,
        values_aligned: true,
        offsets: None,
        offsets_aligned: true,
        children: None,
    };
    proof {
        assert(r.null_count <= r.length);
        if N::nullable() {
            let bytes = r.validity.unwrap()@;
            assert(bytes == array.validity().unwrap().bytes());
            assert(bits_of(bytes, length as nat) =~= array.validity().unwrap()@);
        }
    }
    r
}

/// Returns the fields of an exported boolean array: its length, null count
/// and buffers. The length must fit an `i64`.
pub fn export_boolean<N: Nullability>(array: &BooleanArray<N>) -> (r: ArrayInfo)
    requires
        array.wf(),
        array@.len() <= i64::MAX,
    ensures
        r.length == array@.len(),
        r.null_count == count_none(array@),
        r.validity is Some <==> N::nullable(),
        r.validity matches Some(bytes) ==> bytes@ == array.validity().unwrap().bytes(),
        leaf_fields(r),
        array_check(r, Layout::Boolean { nullable: N::nullable() }) == Ok::<
            usize,
            crate::ffi::import::ImportError,
        >(array@.len() as usize),
{
    let length = array.len();
    let (validity, null_count) = match array.validity_bitmap() {
        Some(bitmap) => {
            let nulls = bitmap.false_count();
            proof {
                assert(bitmap@ =~= presence(array@));
                lemma_count_none(array@, presence(array@));
                assert(bits_of(bitmap.bytes(), length as nat) =~= bitmap@);
                crate::bits::lemma_count_true_false(bitmap@);
                assert(nulls <= length);
            }
            (Some(vstd::slice::slice_to_vec(bitmap.as_bytes())), nulls as i64)
        },
        None => {
            proof {
                lemma_count_none_all_valid(array@);
                assert(!N::nullable());
            }
            (None, 0i64)
        },
    };
    let r = ArrayInfo {
        released: false,
        length: length as i64,
        null_count,
        offset: 0,
        n_buffers: 2,
        n_children: 0,
        has_dictionary: false,
        has_buffers: true,
        validity,
        has_values: true,
        values_aligned: true,
        offsets: None,
        offsets_aligned: true,
        children: None,
    };
    proof {
        assert(r.null_count <= r.length);
        if N::nullable() {
            let bytes = r.validity.unwrap()@;
            assert(bytes == array.validity().unwrap().bytes());
            assert(bits_of(bytes, length as nat) =~= array.validity().unwrap()@);
        }
    }
    r
}

/// Returns the fields of an exported fixed-size-list array of primitive
/// values: its length, null count and validity, and its child array. The
/// number of child values must fit an `i64`.
pub fn export_fixed_size_list<T: FixedSize + ArrowType, const M: usize, N: Nullability>(
    array: &FixedSizeListArray<M, FixedSizePrimitiveArray<T, NonNullable>, N>,
) -> (r: ArrayInfo)
    requires
        array.wf(),
        array@.len() <= i64::MAX,
        array@.len() * M <= i64::MAX,
    ensures
        r.length == array@.len(),
        r.null_count == count_none(array@),
        r.validity is Some <==> N::nullable(),
        r.validity matches Some(bytes) ==> bytes@ == array.validity().unwrap().bytes(),
        !r.released,
        r.offset == 0,
        r.n_buffers == 1,
        r.n_children == 1,
        !r.has_dictionary,
        r.has_buffers,
        !r.has_values,
        r.offsets is None,
        exists|child: ArrayInfo|
            #![trigger only_child(r, child)]
            only_child(r, child) && leaf_fields(child) && child.length == array@.len() * M
                && child.null_count == 0 && child.validity is None,
        M > 0 ==> array_check(
            r,
            Layout::FixedSizeList {
                size: M,
                nullable: N::nullable(),
                child: Box::new(Layout::Primitive { data_type: T::spec_data_type(), nullable: false }),
            },
        ) == Ok::<usize, crate::ffi::import::ImportError>(array@.len() as usize),
{
    let length = array.len();
    let values = array.child_array();
    let child = export_primitive(values);
    let (validity, null_count) = match array.validity_bitmap() {
        Some(bitmap) => {
            let nulls = bitmap.false_count();
            proof {
                assert(bitmap@ =~= presence(array@));
                lemma_count_none(array@, presence(array@));
                assert(bits_of(bitmap.bytes(), length as nat) =~= bitmap@);
                crate::bits::lemma_count_true_false(bitmap@);
                assert(nulls <= length);
            }
            (Some(vstd::slice::slice_to_vec(bitmap.as_bytes())), nulls as i64)
        },
        None => {
            proof {
                lemma_count_none_all_valid(array@);
                assert(!N::nullable());
            }
            (None, 0i64)
        },
    };
    let mut children: Vec<Option<ArrayInfo>> = Vec::new();
    children.push(Some(child));
    let r = ArrayInfo {
        released: false,
        length: length as i64,
        null_count,
        offset: 0,
        n_buffers: 1,
        n_children: 1,
        has_dictionary: false,
        has_buffers: true,
        validity,
        has_values: false,
        values_aligned: true,
        offsets: None,
        offsets_aligned: true,
        children: Some(children),
    };
    proof {
        let layout = Layout::FixedSizeList {
            size: M,
            nullable: N::nullable(),
            child: Box::new(Layout::Primitive { data_type: T::spec_data_type(), nullable: false }),
        };
        assert(r.null_count <= r.length);
        assert(only_child(r, child));
        assert(common_check(r, layout) == Ok::<(), crate::ffi::import::ImportError>(()));
        assert(r.children.unwrap()@[0] == Some(child));
        assert(child_array_check(
            r,
            Layout::Primitive { data_type: T::spec_data_type(), nullable: false },
        ) == Ok::<usize, crate::ffi::import::ImportError>(values@.len() as usize));
        if N::nullable() {
            let bytes = r.validity.unwrap()@;
            assert(bytes == array.validity().unwrap().bytes());
            assert(bits_of(bytes, length as nat) =~= array.validity().unwrap()@);
        }
        assert(validity_check(r, N::nullable(), length) == Ok::<
            usize,
            crate::ffi::import::ImportError,
        >(length));
    }
    r
}

/// Returns the fields of an exported variable-size-list array of primitive
/// values: its length, its offsets (`i64` offsets for a large list) and the
/// values as its child array. The number of values must fit an `i64`.
pub fn export_list<T: FixedSize + ArrowType, O: Offset>(
    array: &VariableSizeListArray<FixedSizePrimitiveArray<T, NonNullable>, NonNullable, O>,
) -> (r: ArrayInfo)
    requires
        array.wf(),
        array@.len() <= i64::MAX,
        array.data().len() <= i64::MAX,
    ensures
        r.length == array@.len(),
        r.null_count == 0,
        r.offsets matches Some(offsets) && offsets@.map_values(|o: i64| o as int)
            == array.offsets(),
        !r.released,
        r.offset == 0,
        r.n_buffers == 2,
        r.n_children == 1,
        !r.has_dictionary,
        r.has_buffers,
        !r.has_values,
        r.offsets_aligned,
        r.validity is None,
        exists|child: ArrayInfo|
            #![trigger only_child(r, child)]
            only_child(r, child) && leaf_fields(child) && child.length == array.data().len()
                && child.null_count == 0 && child.validity is None,
        array_check(
            r,
            Layout::VariableSizeList {
                large: O::spec_large(),
                child: Box::new(Layout::Primitive { data_type: T::spec_data_type(), nullable: false }),
            },
        ) == Ok::<usize, crate::ffi::import::ImportError>(array@.len() as usize),
{
    let length = array.len();
    let source = array.offset_buffer();
    let data_len = array.buffer_ref().len();
    let mut offsets: Vec<i64> = Vec::new();
    let mut i: usize = 0;
    while i < source.len()
        invariant
            array.wf(),
            array.data().len() <= i64::MAX,
            data_len == array.data().len(),
            offset_ints(source@) == array.offsets(),
            i <= source@.len(),
            offsets@.map_values(|o: i64| o as int) == array.offsets().take(i as int),
        decreases source@.len() - i,
    {
        proof {
            let ints = array.offsets();
            assert(ints[i as int] == source@[i as int].spec_int());
            assert(0 <= ints[0] <= ints[i as int] <= ints.last());
        }
        let value = source[i].to_usize() as i64;
        let ghost before = offsets@;
        offsets.push(value);
        assert(offsets@.map_values(|o: i64| o as int) =~= before.map_values(|o: i64| o as int).push(
            value as int,
        ));
        assert(array.offsets().take(i + 1) =~= array.offsets().take(i as int).push(
            array.offsets()[i as int],
        ));
        i = i + 1;
    }
    assert(array.offsets().take(i as int) =~= array.offsets());
    let values = FixedSizePrimitiveArray::<T, NonNullable>::from_values(array.buffer_ref());
    let child = export_primitive(&values);
    let mut children: Vec<Option<ArrayInfo>> = Vec::new();
    children.push(Some(child));
    proof {
        lemma_offsets_check(offsets@, length as nat, data_len as nat);
        assert(offsets@.map_values(|o: i64| o as int) == array.offsets());
    }
    let r = ArrayInfo {
        released: false,
        length: length as i64,
        null_count: 0,
        offset: 0,
        n_buffers: 2,
        n_children: 1,
        has_dictionary: false,
        has_buffers: true,
        validity: None,
        has_values: false,
        values_aligned: true,
        offsets: Some(offsets),
        offsets_aligned: true,
        children: Some(children),
    };
    proof {
        assert(r.children.unwrap()@[0] == Some(child));
        assert(only_child(r, child));
    }
    r
}

/// Items that are all present have no absent item.
proof fn lemma_count_none_all_valid<T>(items: Seq<Option<T>>)
    requires
        forall|i: int| 0 <= i < items.len() ==> items[i] is Some,
    ensures
        count_none(items) == 0,
    decreases items.len(),
{
    if items.len() > 0 {
        lemma_count_none_all_valid(items.drop_last());
    }
}

} // verus!
