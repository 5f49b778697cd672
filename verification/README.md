# narrow

A statically typed implementation of [Apache Arrow](https://arrow.apache.org)
in-memory arrays, written in Verus: each array is specified against a
mathematical view (a sequence of items) and its operations are proved to
produce and preserve that view.

## Layout

- `src/` — the verified library.
  - `bits`, `bitmap`: bits packed LSB-first into bytes; counting set and
    unset bits, padding, iteration.
  - `validity`: nullability (`NonNullable`, `Nullable`) and validity bitmaps.
  - `fixed_size`, `fixed_size_primitive`, `boolean`, `null`: arrays of
    fixed-size values, booleans and unit values.
  - `child`: the arrays that list arrays hold their items in (primitive,
    string and list arrays), with the number of slots each item takes.
  - `offset`, `variable_size_list`, `variable_size_binary`, `string`:
    offset buffers, variable-size list arrays over any child array
    (including other list arrays), and the binary and UTF-8 string arrays
    built on them.
  - `run_end_encoded`, `dictionary`: run-end and dictionary encodings.
  - `fixed_size_list`: fixed-size list arrays over a child array (which may
    itself be a fixed-size list array), and fixed-size chunks.
  - `struct_array`, `union`: struct arrays stored field by field, and dense
    and sparse union arrays with their type ids and offsets.
  - `logical`, `binary`, `comparable`: logical types stored through a
    physical item type, byte wrappers, and value comparison.
  - `buffer`, `arrow`: item storage, including the buffers of the
    `arrow-buffer` crate.
  - `ffi`: the checks of the Arrow C Data Interface — format strings, the
    schema and array checks an import performs and the length and validity
    it yields, what an export produces (every level of the schema and the
    fields of the array), and the error messages. Arrays have no item
    offset, so an export never reports a non-zero offset.
- `tests/` — tests of the library.
- `app/` — code around the library: the C Data Interface structures with
  their raw pointers, `Display` for the errors, and conversions to and from
  the arrays of the `arrow-array` crate.
