//! Buffers of the `arrow-buffer` crate as item storage.
use vstd::prelude::*;
use crate::buffer::{Buffer, BufferMut, BufferType};

verus! {

/// Items of type `u32` held in an `arrow_buffer::BufferBuilder`.
#[verifier::external_body]
pub struct ArrowBuilderU32 {
    inner: arrow_buffer::BufferBuilder<u32>,
}

/// Items of type `u64` held in an `arrow_buffer::BufferBuilder`.
#[verifier::external_body]
pub struct ArrowBuilderU64 {
    inner: arrow_buffer::BufferBuilder<u64>,
}

/// Items of type `u32` held in an `arrow_buffer::ScalarBuffer`.
#[verifier::external_body]
pub struct ArrowScalarU32 {
    inner: arrow_buffer::ScalarBuffer<u32>,
}

/// Bytes held in an `arrow_buffer::Buffer`.
#[verifier::external_body]
pub struct ArrowBytes {
    pub(crate) inner: arrow_buffer::Buffer,
}

/// The items held by a `BufferBuilder<u32>`.
pub uninterp spec fn builder_u32_items(builder: ArrowBuilderU32) -> Seq<u32>;

/// The items held by a `BufferBuilder<u64>`.
pub uninterp spec fn builder_u64_items(builder: ArrowBuilderU64) -> Seq<u64>;

/// The items held by a `ScalarBuffer<u32>`.
pub uninterp spec fn scalar_u32_items(buffer: ArrowScalarU32) -> Seq<u32>;

/// The bytes held by a `Buffer`.
pub uninterp spec fn buffer_bytes(buffer: ArrowBytes) -> Seq<u8>;

/// `BufferBuilder::<u32>::from_iter`: the builder holds the items in order.
#[verifier::external_body]
fn builder_u32_from_slice(items: &[u32]) -> (r: ArrowBuilderU32)
    ensures
        builder_u32_items(r) == items@,
{
    ArrowBuilderU32 { inner: arrow_buffer::BufferBuilder::from_iter(items.iter().copied()) }
}

/// `BufferBuilder::<u32>::as_slice`: the slice holds the builder's items.
#[verifier::external_body]
fn builder_u32_as_slice(builder: &ArrowBuilderU32) -> (r: &[u32])
    ensures
        r@ == builder_u32_items(*builder),
{
    builder.inner.as_slice()
}

/// `BufferBuilder::<u64>::from_iter`: the builder holds the items in order.
#[verifier::external_body]
fn builder_u64_from_slice(items: &[u64]) -> (r: ArrowBuilderU64)
    ensures
        builder_u64_items(r) == items@,
{
    ArrowBuilderU64 { inner: arrow_buffer::BufferBuilder::from_iter(items.iter().copied()) }
}

/// `BufferBuilder::<u64>::as_slice`: the slice holds the builder's items.
#[verifier::external_body]
fn builder_u64_as_slice(builder: &ArrowBuilderU64) -> (r: &[u64])
    ensures
        r@ == builder_u64_items(*builder),
{
    builder.inner.as_slice()
}

/// `BufferBuilder::<u64>::as_slice_mut`, written through: only the item at
/// `index` changes.
#[verifier::external_body]
fn builder_u64_set(builder: &mut ArrowBuilderU64, index: usize, value: u64)
    requires
        index < builder_u64_items(*old(builder)).len(),
    ensures
        builder_u64_items(*final(builder)) == builder_u64_items(*old(builder)).update(
            index as int,
            value,
        ),
{
    builder.inner.as_slice_mut()[index] = value;
}

/// `ScalarBuffer::<u32>::from(Vec<u32>)`: the buffer holds the items in
/// order.
#[verifier::external_body]
fn scalar_u32_from_vec(items: Vec<u32>) -> (r: ArrowScalarU32)
    ensures
        scalar_u32_items(r) == items@,
{
    ArrowScalarU32 { inner: arrow_buffer::ScalarBuffer::from(items) }
}

/// `ScalarBuffer::<u32>::as_ref`: the slice holds the buffer's items.
#[verifier::external_body]
fn scalar_u32_as_slice(buffer: &ArrowScalarU32) -> (r: &[u32])
    ensures
        r@ == scalar_u32_items(*buffer),
{
    buffer.inner.as_ref()
}

/// `Buffer::from_vec`: the buffer holds the bytes in order.
#[verifier::external_body]
fn buffer_from_vec(bytes: Vec<u8>) -> (r: ArrowBytes)
    ensures
        buffer_bytes(r) == bytes@,
{
    ArrowBytes { inner: arrow_buffer::Buffer::from_vec(bytes) }
}

/// `Buffer::as_slice`: the slice holds the buffer's bytes.
#[verifier::external_body]
fn buffer_as_slice(buffer: &ArrowBytes) -> (r: &[u8])
    ensures
        r@ == buffer_bytes(*buffer),
{
    buffer.inner.as_slice()
}

impl Buffer<u32> for ArrowBuilderU32 {
    open spec fn items(&self) -> Seq<u32> {
        builder_u32_items(*self)
    }

    fn from_slice(items: &[u32]) -> (r: Self) {
        builder_u32_from_slice(items)
    }

    fn as_slice(&self) -> (r: &[u32]) {
        builder_u32_as_slice(self)
    }
}

impl Buffer<u64> for ArrowBuilderU64 {
    open spec fn items(&self) -> Seq<u64> {
        builder_u64_items(*self)
    }

    fn from_slice(items: &[u64]) -> (r: Self) {
        builder_u64_from_slice(items)
    }

    fn as_slice(&self) -> (r: &[u64]) {
        builder_u64_as_slice(self)
    }
}

impl BufferMut<u64> for ArrowBuilderU64 {
    fn set_item(&mut self, index: usize, value: u64) {
        builder_u64_set(self, index, value);
    }
}

impl Buffer<u32> for ArrowScalarU32 {
    open spec fn items(&self) -> Seq<u32> {
        scalar_u32_items(*self)
    }

    fn from_slice(items: &[u32]) -> (r: Self) {
        scalar_u32_from_vec(<Vec<u32> as Buffer<u32>>::from_slice(items))
    }

    fn as_slice(&self) -> (r: &[u32]) {
        scalar_u32_as_slice(self)
    }
}

impl Buffer<u8> for ArrowBytes {
    open spec fn items(&self) -> Seq<u8> {
        buffer_bytes(*self)
    }

    fn from_slice(items: &[u8]) -> (r: Self) {
        buffer_from_vec(<Vec<u8> as Buffer<u8>>::from_slice(items))
    }

    fn as_slice(&self) -> (r: &[u8]) {
        buffer_as_slice(self)
    }
}

/// Names `arrow_buffer::BufferBuilder` as the storage of items.
#[derive(Clone, Copy, Debug)]
pub struct ArrowBufferBuilder;

impl BufferType<u32> for ArrowBufferBuilder {
    type Buffer = ArrowBuilderU32;
}

impl BufferType<u64> for ArrowBufferBuilder {
    type Buffer = ArrowBuilderU64;
}

/// Names `arrow_buffer::ScalarBuffer` as the storage of items.
#[derive(Clone, Copy, Debug)]
pub struct ArrowScalarBuffer;

impl BufferType<u32> for ArrowScalarBuffer {
    type Buffer = ArrowScalarU32;
}

/// Names `arrow_buffer::Buffer` as the storage of bytes.
#[derive(Clone, Copy, Debug)]
pub struct ArrowBuffer;

impl BufferType<u8> for ArrowBuffer {
    type Buffer = ArrowBytes;
}

/// Names `arrow_buffer::BufferBuilder` as the storage of items.
#[derive(Clone, Copy, Debug)]
pub struct BufferBuilder;

impl BufferType<u32> for BufferBuilder {
    type Buffer = ArrowBuilderU32;
}

impl BufferType<u64> for BufferBuilder {
    type Buffer = ArrowBuilderU64;
}

/// Names `arrow_buffer::ScalarBuffer` as the storage of items.
#[derive(Clone, Copy, Debug)]
pub struct ScalarBuffer;

impl BufferType<u32> for ScalarBuffer {
    type Buffer = ArrowScalarU32;
}

} // verus!
