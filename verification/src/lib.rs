//! A statically typed, verified model of Apache Arrow in-memory arrays.
//!
//! Values are stored in Arrow's columnar layout: validity bitmaps with bits
//! packed LSB-first into bytes, offset buffers for variable-size values and
//! flat value buffers. Every operation is specified against a mathematical
//! view of the array (a sequence of items) and proved by Verus.
pub mod bits;
pub mod bitmap;
pub mod buffer;
pub mod fixed_size;
pub mod comparable;
pub mod validity;
pub mod fixed_size_primitive;
pub mod child;
pub mod boolean;
pub mod offset;
pub mod variable_size_list;
pub mod variable_size_binary;
pub mod string;
pub mod run_end_encoded;
pub mod dictionary;
pub mod logical;
pub mod union;
pub mod struct_array;
pub mod null;
pub mod fixed_size_list;
pub mod binary;
pub mod arrow;
pub mod ffi;
