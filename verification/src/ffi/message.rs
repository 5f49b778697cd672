//! Human-readable messages of the import and export errors, with numbers
//! written in decimal.
use vstd::prelude::*;
use crate::ffi::export::ExportError;
use crate::ffi::format::decimal;
use crate::ffi::import::{ImportError, OffsetsError};

verus! {

/// The character of a decimal digit.
pub open spec fn digit_char(d: nat) -> char {
    ((48 + d) as u8) as char
}

/// The decimal digits of `n` as characters, most significant first,
/// without leading zeros (zero is the single digit `0`).
pub open spec fn decimal_digits(n: nat) -> Seq<char> {
    decimal(n).map_values(|b: u8| b as char)
}

/// The decimal representation of `n`: a minus sign before the digits of a
/// negative number.
pub open spec fn decimal_text(n: int) -> Seq<char> {
    if n < 0 {
        seq!['-'] + decimal_digits((-n) as nat)
    } else {
        decimal_digits(n as nat)
    }
}

/// Returns the one-character string of a decimal digit.
fn digit_str(d: u128) -> (r: &'static str)
    requires
        d < 10,
    ensures
        r@ == seq![digit_char(d as nat)],
{
    if d == 0 {
        proof {
            reveal_strlit("0");
        }
        "0"
    } else if d == 1 {
        proof {
            reveal_strlit("1");
        }
        "1"
    } else if d == 2 {
        proof {
            reveal_strlit("2");
        }
        "2"
    } else if d == 3 {
        proof {
            reveal_strlit("3");
        }
        "3"
    } else if d == 4 {
        proof {
            reveal_strlit("4");
        }
        "4"
    } else if d == 5 {
        proof {
            reveal_strlit("5");
        }
        "5"
    } else if d == 6 {
        proof {
            reveal_strlit("6");
        }
        "6"
    } else if d == 7 {
        proof {
            reveal_strlit("7");
        }
        "7"
    } else if d == 8 {
        proof {
            reveal_strlit("8");
        }
        "8"
    } else {
        proof {
            reveal_strlit("9");
        }
        "9"
    }
}

/// Appends the decimal digits of `n`.
fn append_digits(out: &mut String, n: u128)
    ensures
        final(out)@ == old(out)@ + decimal_digits(n as nat),
    decreases n,
{
    if n >= 10 {
        append_digits(out, n / 10);
    }
    let ghost before = out@;
    out.append(digit_str(n % 10));
    if n >= 10 {
        assert(out@ =~= old(out)@ + decimal_digits(n as nat));
    } else {
        assert(out@ =~= old(out)@ + decimal_digits(n as nat));
    }
}

/// Appends the decimal representation of `n`.
pub fn append_decimal(out: &mut String, n: i128)
    requires
        n > i128::MIN,
    ensures
        final(out)@ == old(out)@ + decimal_text(n as int),
{
    if n < 0 {
        proof {
            reveal_strlit("-");
        }
        out.append("-");
        let magnitude = (-n) as u128;
        append_digits(out, magnitude);
        assert(out@ =~= old(out)@ + decimal_text(n as int));
    } else {
        append_digits(out, n as u128);
    }
}

/// Returns `prefix`, the decimal representation of `n`, then `suffix`.
fn framed(prefix: &str, n: i128, suffix: &str) -> (r: String)
    requires
        n > i128::MIN,
    ensures
        r@ == prefix@ + decimal_text(n as int) + suffix@,
{
    let mut s = String::from_str(prefix);
    append_decimal(&mut s, n);
    s.append(suffix);
    s
}

/// The message of an offsets error.
pub open spec fn offsets_message(e: OffsetsError) -> Seq<char> {
    match e {
        OffsetsError::InvalidLength { offsets } => "offset count ("@ + decimal_text(offsets as int)
            + ") is not one more than the length"@,
        OffsetsError::NonZeroStart { first } => "first offset ("@ + decimal_text(first as int)
            + ") is not zero"@,
        OffsetsError::NonMonotonic { index } => "offset at index "@ + decimal_text(index as int)
            + " is smaller than the one before it"@,
        OffsetsError::EndMismatch { end, len } => "last offset ("@ + decimal_text(end as int)
            + ") does not match the child length ("@ + decimal_text(len as int) + ")"@,
    }
}

/// The message of an import error.
pub open spec fn import_message(e: ImportError) -> Seq<char> {
    match e {
        ImportError::ReleasedArray => "Arrow array is already released"@,
        ImportError::ReleasedSchema => "Arrow schema is already released"@,
        ImportError::MissingFormat => "Arrow schema format is missing"@,
        ImportError::UnexpectedFormat => "Arrow schema format does not match"@,
        ImportError::UnexpectedFlags { flags } => "Arrow schema nullable flag in flags ("@
            + decimal_text(flags as int) + ") does not match"@,
        ImportError::InvalidLength { length } => "Arrow array length ("@ + decimal_text(length as int)
            + ") is invalid"@,
        ImportError::NonZeroOffset { offset } => "Arrow array offset ("@ + decimal_text(offset as int)
            + ") is not supported"@,
        ImportError::UnexpectedNullCount { null_count } => "Arrow array null count ("@ + decimal_text(
            null_count as int,
        ) + ") does not match the imported layout"@,
        ImportError::MissingValidityBuffer => "nullable Arrow array validity buffer is missing"@,
        ImportError::NullCountMismatch { declared, actual } => "Arrow array null count ("@
            + decimal_text(declared as int) + ") does not match validity bitmap ("@ + decimal_text(
            actual as int,
        ) + ")"@,
        ImportError::UnexpectedBufferCount { count } => "Arrow array buffer count ("@ + decimal_text(
            count as int,
        ) + ") does not match"@,
        ImportError::UnexpectedArrayChildCount { count } => "Arrow array child count ("@
            + decimal_text(count as int) + ") does not match"@,
        ImportError::UnexpectedSchemaChildCount { count } => "Arrow schema child count ("@
            + decimal_text(count as int) + ") does not match"@,
        ImportError::UnexpectedDictionary => "Arrow dictionary is not supported for this array"@,
        ImportError::MissingBufferPointers => "Arrow buffer pointers are missing"@,
        ImportError::MissingArrayChildren => "Arrow array child pointers are missing"@,
        ImportError::MissingSchemaChildren => "Arrow schema child pointers are missing"@,
        ImportError::UnsupportedFixedSizeListSize { size } => "fixed-size-list width ("@
            + decimal_text(size as int) + ") is not supported"@,
        ImportError::FixedSizeListLengthMismatch { length, child_length, size } =>
            "fixed-size-list length ("@ + decimal_text(length as int) + ") with width ("@ + decimal_text(
            size as int,
        ) + ") does not match child length ("@ + decimal_text(child_length as int) + ")"@,
        ImportError::MissingOffsetsBuffer => "Arrow offsets buffer is missing"@,
        ImportError::MisalignedOffsetsBuffer { alignment } =>
            "Arrow offsets buffer does not have the required alignment ("@ + decimal_text(
            alignment as int,
        ) + ")"@,
        ImportError::InvalidOffsets { error } => "invalid Arrow offsets: "@ + offsets_message(
            error,
        ),
        ImportError::MissingValuesBuffer => "Arrow value buffer is missing"@,
        ImportError::MisalignedValuesBuffer { alignment } =>
            "Arrow value buffer does not have the required alignment ("@ + decimal_text(
            alignment as int,
        ) + ")"@,
    }
}

/// The message of an export error.
pub open spec fn export_message(e: ExportError) -> Seq<char> {
    match e {
        ExportError::NonZeroOffset { offset } => "array offset ("@ + decimal_text(offset as int)
            + ") is not supported"@,
    }
}

impl OffsetsError {
    /// Returns the message of this error.
    pub fn message(&self) -> (r: String)
        ensures
            r@ == offsets_message(*self),
    {
        match *self {
            OffsetsError::InvalidLength { offsets } => framed(
                "offset count (",
                offsets as i128,
                ") is not one more than the length",
            ),
            OffsetsError::NonZeroStart { first } => framed(
                "first offset (",
                first as i128,
                ") is not zero",
            ),
            OffsetsError::NonMonotonic { index } => framed(
                "offset at index ",
                index as i128,
                " is smaller than the one before it",
            ),
            OffsetsError::EndMismatch { end, len } => {
                let mut s = framed("last offset (", end as i128, ") does not match the child length (");
                append_decimal(&mut s, len as i128);
                s.append(")");
                s
            },
        }
    }
}

impl ImportError {
    /// Returns the message of this error.
    pub fn message(&self) -> (r: String)
        ensures
            r@ == import_message(*self),
    {
        match *self {
            ImportError::ReleasedArray => String::from_str("Arrow array is already released"),
            ImportError::ReleasedSchema => String::from_str("Arrow schema is already released"),
            ImportError::MissingFormat => String::from_str("Arrow schema format is missing"),
            ImportError::UnexpectedFormat => String::from_str("Arrow schema format does not match"),
            ImportError::UnexpectedFlags { flags } => framed(
                "Arrow schema nullable flag in flags (",
                flags as i128,
                ") does not match",
            ),
            ImportError::InvalidLength { length } => framed(
                "Arrow array length (",
                length as i128,
                ") is invalid",
            ),
            ImportError::NonZeroOffset { offset } => framed(
                "Arrow array offset (",
                offset as i128,
                ") is not supported",
            ),
            ImportError::UnexpectedNullCount { null_count } => framed(
                "Arrow array null count (",
                null_count as i128,
                ") does not match the imported layout",
            ),
            ImportError::MissingValidityBuffer => String::from_str(
                "nullable Arrow array validity buffer is missing",
            ),
            ImportError::NullCountMismatch { declared, actual } => {
                let mut s = framed(
                    "Arrow array null count (",
                    declared as i128,
                    ") does not match validity bitmap (",
                );
                append_decimal(&mut s, actual as i128);
                s.append(")");
                s
            },
            ImportError::UnexpectedBufferCount { count } => framed(
                "Arrow array buffer count (",
                count as i128,
                ") does not match",
            ),
            ImportError::UnexpectedArrayChildCount { count } => framed(
                "Arrow array child count (",
                count as i128,
                ") does not match",
            ),
            ImportError::UnexpectedSchemaChildCount { count } => framed(
                "Arrow schema child count (",
                count as i128,
                ") does not match",
            ),
            ImportError::UnexpectedDictionary => String::from_str(
                "Arrow dictionary is not supported for this array",
            ),
            ImportError::MissingBufferPointers => String::from_str(
                "Arrow buffer pointers are missing",
            ),
            ImportError::MissingArrayChildren => String::from_str(
                "Arrow array child pointers are missing",
            ),
            ImportError::MissingSchemaChildren => String::from_str(
                "Arrow schema child pointers are missing",
            ),
            ImportError::UnsupportedFixedSizeListSize { size } => framed(
                "fixed-size-list width (",
                size as i128,
                ") is not supported",
            ),
            ImportError::FixedSizeListLengthMismatch { length, child_length, size } => {
                let mut s = framed("fixed-size-list length (", length as i128, ") with width (");
                append_decimal(&mut s, size as i128);
                s.append(") does not match child length (");
                append_decimal(&mut s, child_length as i128);
                s.append(")");
                s
            },
            ImportError::MissingOffsetsBuffer => String::from_str("Arrow offsets buffer is missing"),
            ImportError::MisalignedOffsetsBuffer { alignment } => framed(
                "Arrow offsets buffer does not have the required alignment (",
                alignment as i128,
                ")",
            ),
            ImportError::InvalidOffsets { error } => {
                let mut s = String::from_str("invalid Arrow offsets: ");
                let detail = error.message();
                s.append(detail.as_str());
                s
            },
            ImportError::MissingValuesBuffer => String::from_str("Arrow value buffer is missing"),
            ImportError::MisalignedValuesBuffer { alignment } => framed(
                "Arrow value buffer does not have the required alignment (",
                alignment as i128,
                ")",
            ),
        }
    }
}

impl ExportError {
    /// Returns the message of this error.
    pub fn message(&self) -> (r: String)
        ensures
            r@ == export_message(*self),
    {
        match *self {
            ExportError::NonZeroOffset { offset } => framed(
                "array offset (",
                offset as i128,
                ") is not supported",
            ),
        }
    }
}

/// An import error without fields.
pub open spec fn fieldless(e: ImportError) -> bool {
    match e {
        ImportError::ReleasedArray => true,
        ImportError::ReleasedSchema => true,
        ImportError::MissingFormat => true,
        ImportError::UnexpectedFormat => true,
        ImportError::MissingValidityBuffer => true,
        ImportError::UnexpectedDictionary => true,
        ImportError::MissingBufferPointers => true,
        ImportError::MissingArrayChildren => true,
        ImportError::MissingSchemaChildren => true,
        ImportError::MissingOffsetsBuffer => true,
        ImportError::MissingValuesBuffer => true,
        _ => false,
    }
}

/// Different import errors without fields have different messages.
pub proof fn lemma_fieldless_messages_distinct(e1: ImportError, e2: ImportError)
    requires
        fieldless(e1),
        fieldless(e2),
        e1 != e2,
    ensures
        import_message(e1) != import_message(e2),
{
    reveal_strlit("Arrow array is already released");
    reveal_strlit("Arrow schema is already released");
    reveal_strlit("Arrow schema format is missing");
    reveal_strlit("Arrow schema format does not match");
    reveal_strlit("nullable Arrow array validity buffer is missing");
    reveal_strlit("Arrow dictionary is not supported for this array");
    reveal_strlit("Arrow buffer pointers are missing");
    reveal_strlit("Arrow array child pointers are missing");
    reveal_strlit("Arrow schema child pointers are missing");
    reveal_strlit("Arrow offsets buffer is missing");
    reveal_strlit("Arrow value buffer is missing");
    if import_message(e1) == import_message(e2) {
        assert(import_message(e1).len() == import_message(e2).len());
        assert(import_message(e1)[6] == import_message(e2)[6]);
    }
}

/// `part` occurs in `text` as a contiguous piece.
pub open spec fn contains_text(text: Seq<char>, part: Seq<char>) -> bool {
    exists|i: int|
        0 <= i && i + part.len() <= text.len() && #[trigger] text.subrange(i, i + part.len())
            == part
}

/// A text ends with its last piece.
proof fn lemma_contains_end(text: Seq<char>, part: Seq<char>)
    ensures
        contains_text(text + part, part),
{
    let i = text.len() as int;
    assert((text + part).subrange(i, i + part.len()) =~= part);
}

/// A piece of a text is a piece of any longer text that starts with it.
proof fn lemma_contains_extend(text: Seq<char>, part: Seq<char>, rest: Seq<char>)
    requires
        contains_text(text, part),
    ensures
        contains_text(text + rest, part),
{
    let i = choose|i: int|
        0 <= i && i + part.len() <= text.len() && #[trigger] text.subrange(i, i + part.len())
            == part;
    assert((text + rest).subrange(i, i + part.len()) =~= text.subrange(i, i + part.len()));
}

/// `part` occurs in `head + part + tail`.
proof fn lemma_contains_between(head: Seq<char>, part: Seq<char>, tail: Seq<char>)
    ensures
        contains_text(head + part + tail, part),
{
    lemma_contains_end(head, part);
    lemma_contains_extend(head + part, part, tail);
}

/// The message of an import error shows each of its fields: the decimal
/// text of each number, and the message of a nested offsets error.
pub proof fn lemma_message_shows_fields(e: ImportError)
    ensures
        match e {
            ImportError::UnexpectedFlags { flags } => contains_text(
                import_message(e),
                decimal_text(flags as int),
            ),
            ImportError::InvalidLength { length } => contains_text(
                import_message(e),
                decimal_text(length as int),
            ),
            ImportError::NonZeroOffset { offset } => contains_text(
                import_message(e),
                decimal_text(offset as int),
            ),
            ImportError::UnexpectedNullCount { null_count } => contains_text(
                import_message(e),
                decimal_text(null_count as int),
            ),
            ImportError::NullCountMismatch { declared, actual } => contains_text(
                import_message(e),
                decimal_text(declared as int),
            ) && contains_text(import_message(e), decimal_text(actual as int)),
            ImportError::UnexpectedBufferCount { count } => contains_text(
                import_message(e),
                decimal_text(count as int),
            ),
            ImportError::UnexpectedArrayChildCount { count } => contains_text(
                import_message(e),
                decimal_text(count as int),
            ),
            ImportError::UnexpectedSchemaChildCount { count } => contains_text(
                import_message(e),
                decimal_text(count as int),
            ),
            ImportError::UnsupportedFixedSizeListSize { size } => contains_text(
                import_message(e),
                decimal_text(size as int),
            ),
            ImportError::FixedSizeListLengthMismatch { length, child_length, size } =>
                contains_text(import_message(e), decimal_text(length as int)) && contains_text(
                import_message(e),
                decimal_text(child_length as int),
            ) && contains_text(import_message(e), decimal_text(size as int)),
            ImportError::MisalignedOffsetsBuffer { alignment } => contains_text(
                import_message(e),
                decimal_text(alignment as int),
            ),
            ImportError::InvalidOffsets { error } => contains_text(
                import_message(e),
                offsets_message(error),
            ),
            ImportError::MisalignedValuesBuffer { alignment } => contains_text(
                import_message(e),
                decimal_text(alignment as int),
            ),
            _ => true,
        },
{
    match e {
        ImportError::UnexpectedFlags { flags } => {
            lemma_contains_between(
                "Arrow schema nullable flag in flags ("@,
                decimal_text(flags as int),
                ") does not match"@,
            );
        },
        ImportError::InvalidLength { length } => {
            lemma_contains_between(
                "Arrow array length ("@,
                decimal_text(length as int),
                ") is invalid"@,
            );
        },
        ImportError::NonZeroOffset { offset } => {
            lemma_contains_between(
                "Arrow array offset ("@,
                decimal_text(offset as int),
                ") is not supported"@,
            );
        },
        ImportError::UnexpectedNullCount { null_count } => {
            lemma_contains_between(
                "Arrow array null count ("@,
                decimal_text(null_count as int),
                ") does not match the imported layout"@,
            );
        },
        ImportError::NullCountMismatch { declared, actual } => {
            let a = "Arrow array null count ("@;
            let d1 = decimal_text(declared as int);
            let b = ") does not match validity bitmap ("@;
            let d2 = decimal_text(actual as int);
            let c = ")"@;
            lemma_contains_end(a, d1);
            lemma_contains_extend(a + d1, d1, b);
            lemma_contains_extend(a + d1 + b, d1, d2);
            lemma_contains_extend(a + d1 + b + d2, d1, c);
            lemma_contains_between(a + d1 + b, d2, c);
        },
        ImportError::UnexpectedBufferCount { count } => {
            lemma_contains_between(
                "Arrow array buffer count ("@,
                decimal_text(count as int),
                ") does not match"@,
            );
        },
        ImportError::UnexpectedArrayChildCount { count } => {
            lemma_contains_between(
                "Arrow array child count ("@,
                decimal_text(count as int),
                ") does not match"@,
            );
        },
        ImportError::UnexpectedSchemaChildCount { count } => {
            lemma_contains_between(
                "Arrow schema child count ("@,
                decimal_text(count as int),
                ") does not match"@,
            );
        },
        ImportError::UnsupportedFixedSizeListSize { size } => {
            lemma_contains_between(
                "fixed-size-list width ("@,
                decimal_text(size as int),
                ") is not supported"@,
            );
        },
        ImportError::FixedSizeListLengthMismatch { length, child_length, size } => {
            let a = "fixed-size-list length ("@;
            let d1 = decimal_text(length as int);
            let b = ") with width ("@;
            let d2 = decimal_text(size as int);
            let c = ") does not match child length ("@;
            let d3 = decimal_text(child_length as int);
            let f = ")"@;
            lemma_contains_end(a, d1);
            lemma_contains_extend(a + d1, d1, b);
            lemma_contains_extend(a + d1 + b, d1, d2);
            lemma_contains_extend(a + d1 + b + d2, d1, c);
            lemma_contains_extend(a + d1 + b + d2 + c, d1, d3);
            lemma_contains_extend(a + d1 + b + d2 + c + d3, d1, f);
            lemma_contains_end(a + d1 + b, d2);
            lemma_contains_extend(a + d1 + b + d2, d2, c);
            lemma_contains_extend(a + d1 + b + d2 + c, d2, d3);
            lemma_contains_extend(a + d1 + b + d2 + c + d3, d2, f);
            lemma_contains_between(a + d1 + b + d2 + c, d3, f);
        },
        ImportError::MisalignedOffsetsBuffer { alignment } => {
            lemma_contains_between(
                "Arrow offsets buffer does not have the required alignment ("@,
                decimal_text(alignment as int),
                ")"@,
            );
        },
        ImportError::InvalidOffsets { error } => {
            lemma_contains_end("invalid Arrow offsets: "@, offsets_message(error));
        },
        ImportError::MisalignedValuesBuffer { alignment } => {
            lemma_contains_between(
                "Arrow value buffer does not have the required alignment ("@,
                decimal_text(alignment as int),
                ")"@,
            );
        },
        _ => {},
    }
}

} // verus!
