//! Format strings with a decimal parameter, such as the fixed-size-list
//! format `+w:N`.
use vstd::prelude::*;

verus! {

/// The decimal digits of `n`, most significant first, without leading zeros.
pub open spec fn decimal(n: nat) -> Seq<u8>
    decreases n,
{
    if n < 10 {
        seq![(48 + n) as u8]
    } else {
        decimal(n / 10).push((48 + n % 10) as u8)
    }
}

/// Whether a byte is an ASCII decimal digit.
pub open spec fn is_digit(b: u8) -> bool {
    48 <= b <= 57
}

/// The value of a sequence of decimal digits, most significant first.
pub open spec fn digits_value(digits: Seq<u8>) -> nat
    decreases digits.len(),
{
    if digits.len() == 0 {
        0
    } else {
        digits_value(digits.drop_last()) * 10 + (digits.last() - 48) as nat
    }
}

/// The prefix of the fixed-size-list format: `+w:`.
pub open spec fn fixed_size_list_prefix() -> Seq<u8> {
    seq![43u8, 119u8, 58u8]
}

/// The width that a fixed-size-list format string names: `+w:` followed by
/// one or more decimal digits whose value fits a `usize`.
pub open spec fn fixed_size_list_width(format: Seq<u8>) -> Option<usize> {
    let digits = format.skip(3);
    if format.len() > 3 && format.take(3) == fixed_size_list_prefix() && (forall|i: int|
        0 <= i < digits.len() ==> is_digit(#[trigger] digits[i])) && digits_value(digits)
        <= usize::MAX {
        Some(digits_value(digits) as usize)
    } else {
        None
    }
}

/// The decimal representation of `n` consists of digits and denotes `n`.
pub proof fn lemma_decimal(n: nat)
    ensures
        decimal(n).len() > 0,
        forall|i: int| 0 <= i < decimal(n).len() ==> is_digit(#[trigger] decimal(n)[i]),
        digits_value(decimal(n)) == n,
    decreases n,
{
    if n < 10 {
        assert(decimal(n).drop_last() =~= Seq::<u8>::empty());
        assert(((48 + n) as u8) == 48 + n);
        assert(digits_value(Seq::<u8>::empty()) == 0);
        assert(digits_value(decimal(n)) == digits_value(decimal(n).drop_last()) * 10 + (decimal(
            n,
        ).last() - 48) as nat);
    } else {
        lemma_decimal(n / 10);
        assert(decimal(n).drop_last() =~= decimal(n / 10));
        let d = (48 + n % 10) as u8;
        assert(d == 48 + n % 10);
        assert(decimal(n).last() == d);
        assert((n / 10) * 10 + n % 10 == n);
        assert(digits_value(decimal(n)) == digits_value(decimal(n).drop_last()) * 10 + (decimal(
            n,
        ).last() - 48) as nat);
    }
}

/// Returns the decimal digits of `n`.
pub fn decimal_digits(n: usize) -> (r: Vec<u8>)
    ensures
        r@ == decimal(n as nat),
    decreases n,
{
    if n < 10 {
        let mut r: Vec<u8> = Vec::new();
        r.push((48 + n) as u8);
        assert(r@ =~= decimal(n as nat));
        r
    } else {
        let mut r = decimal_digits(n / 10);
        r.push((48 + n % 10) as u8);
        r
    }
}

/// Returns the format string of a fixed-size list with `size` items per
/// list: `+w:` followed by the decimal digits of `size`.
pub fn fixed_size_list_format(size: usize) -> (r: Vec<u8>)
    ensures
        r@ == fixed_size_list_prefix() + decimal(size as nat),
        fixed_size_list_width(r@) == Some(size),
{
    let mut r: Vec<u8> = Vec::new();
    r.push(43u8);
    r.push(119u8);
    r.push(58u8);
    let digits = decimal_digits(size);
    let mut i: usize = 0;
    while i < digits.len()
        invariant
            i <= digits@.len(),
            digits@ == decimal(size as nat),
            r@ == fixed_size_list_prefix() + digits@.take(i as int),
        decreases digits@.len() - i,
    {
        r.push(digits[i]);
        i = i + 1;
        assert(r@ =~= fixed_size_list_prefix() + digits@.take(i as int));
    }
    assert(digits@.take(i as int) =~= digits@);
    proof {
        lemma_decimal(size as nat);
        assert(r@.skip(3) =~= decimal(size as nat));
        assert(r@.take(3) =~= fixed_size_list_prefix());
    }
    r
}

/// Parses the width of a fixed-size-list format string, rejecting anything
/// other than `+w:` followed by decimal digits, and widths that overflow.
pub fn parse_fixed_size_list_width(format: &[u8]) -> (r: Option<usize>)
    ensures
        r == fixed_size_list_width(format@),
{
    if format.len() <= 3 || format[0] != 43u8 || format[1] != 119u8 || format[2] != 58u8 {
        proof {
            if format@.len() > 3 {
                assert(format@.take(3)[0] == format@[0]);
                assert(format@.take(3)[1] == format@[1]);
                assert(format@.take(3)[2] == format@[2]);
            }
        }
        return None;
    }
    assert(format@.take(3) =~= fixed_size_list_prefix());
    let ghost digits = format@.skip(3);
    let mut size: usize = 0;
    let mut i: usize = 3;
    while i < format.len()
        invariant
            3 <= i <= format@.len(),
            digits == format@.skip(3),
            forall|j: int| 0 <= j < i - 3 ==> is_digit(#[trigger] digits[j]),
            size == digits_value(digits.take(i - 3)),
        decreases format@.len() - i,
    {
        let byte = format[i];
        if byte < 48u8 || byte > 57u8 {
            assert(!is_digit(digits[i - 3]));
            return None;
        }
        proof {
            assert(digits.take(i - 2).drop_last() =~= digits.take(i - 3));
        }
        let digit = (byte - 48u8) as usize;
        match size.checked_mul(10) {
            Some(scaled) => match scaled.checked_add(digit) {
                Some(next) => {
                    size = next;
                },
                None => {
                    proof {
                        lemma_digits_value_prefix(digits, i - 2);
                    }
                    return None;
                },
            },
            None => {
                proof {
                    lemma_digits_value_prefix(digits, i - 2);
                }
                return None;
            },
        }
        i = i + 1;
    }
    assert(digits.take(i - 3) =~= digits);
    Some(size)
}

/// The value of a sequence of digits is at least the value of any prefix.
pub proof fn lemma_digits_value_prefix(digits: Seq<u8>, n: int)
    requires
        0 <= n <= digits.len(),
    ensures
        digits_value(digits.take(n)) <= digits_value(digits),
    decreases digits.len() - n,
{
    if n < digits.len() {
        lemma_digits_value_prefix(digits, n + 1);
        assert(digits.take(n + 1).drop_last() =~= digits.take(n));
    } else {
        assert(digits.take(n) =~= digits);
    }
}

} // verus!
