//! Bit-level facts about bytes used by the bitmap layout.
use vstd::prelude::*;

verus! {

/// Whether bit `k` (counted from the least significant bit) of `b` is set.
pub open spec fn bit_set(b: u8, k: u8) -> bool {
    b & (1u8 << k) != 0
}

/// Number of set bits of a byte.
pub open spec fn popcount(b: u8) -> nat {
    (if bit_set(b, 0) { 1nat } else { 0nat }) + (if bit_set(b, 1) { 1nat } else { 0nat })
        + (if bit_set(b, 2) { 1nat } else { 0nat }) + (if bit_set(b, 3) { 1nat } else { 0nat })
        + (if bit_set(b, 4) { 1nat } else { 0nat }) + (if bit_set(b, 5) { 1nat } else { 0nat })
        + (if bit_set(b, 6) { 1nat } else { 0nat }) + (if bit_set(b, 7) { 1nat } else { 0nat })
}

/// Number of `true` entries of a sequence of booleans.
pub open spec fn count_true(s: Seq<bool>) -> nat
    decreases s.len(),
{
    if s.len() == 0 {
        0
    } else {
        count_true(s.drop_last()) + if s.last() {
            1nat
        } else {
            0nat
        }
    }
}

/// Number of `false` entries of a sequence of booleans.
pub open spec fn count_false(s: Seq<bool>) -> nat
    decreases s.len(),
{
    if s.len() == 0 {
        0
    } else {
        count_false(s.drop_last()) + if s.last() {
            0nat
        } else {
            1nat
        }
    }
}

/// Number of set bits over a sequence of bytes.
pub open spec fn ones_in_bytes(bytes: Seq<u8>) -> nat
    decreases bytes.len(),
{
    if bytes.len() == 0 {
        0
    } else {
        ones_in_bytes(bytes.drop_last()) + popcount(bytes.last())
    }
}

/// Number of bytes needed to hold `bits` bits.
pub open spec fn bytes_for_bits(bits: nat) -> nat {
    if bits % 8 == 0 {
        bits / 8
    } else {
        bits / 8 + 1
    }
}

/// Bit `i` of a byte sequence, bits packed LSB-first.
pub open spec fn bit_at(bytes: Seq<u8>, i: int) -> bool {
    bit_set(bytes[i / 8], (i % 8) as u8)
}

/// Number of set bits among the first `n` bits of a byte sequence.
pub open spec fn ones_prefix(bytes: Seq<u8>, n: nat) -> nat
    decreases n,
{
    if n == 0 {
        0
    } else {
        ones_prefix(bytes, (n - 1) as nat) + if bit_at(bytes, n - 1) {
            1nat
        } else {
            0nat
        }
    }
}

pub proof fn lemma_set_bit(b: u8, k: u8, j: u8)
    requires
        k < 8,
        j < 8,
    ensures
        bit_set(b | (1u8 << k), j) == (bit_set(b, j) || j == k),
{
    assert((b | (1u8 << k)) & (1u8 << j) != 0 <==> (b & (1u8 << j) != 0 || j == k))
        by (bit_vector)
        requires
            k < 8,
            j < 8,
    ;
}

pub proof fn lemma_zero_byte(j: u8)
    requires
        j < 8,
    ensures
        !bit_set(0u8, j),
{
    assert(0u8 & (1u8 << j) == 0) by (bit_vector);
}

/// Each byte holds at most eight set bits.
pub proof fn lemma_ones_in_bytes_bound(bytes: Seq<u8>)
    ensures
        ones_in_bytes(bytes) <= 8 * bytes.len(),
    decreases bytes.len(),
{
    if bytes.len() > 0 {
        lemma_ones_in_bytes_bound(bytes.drop_last());
    }
}

/// Bit `8 * q + k` of a byte sequence is bit `k` of byte `q`.
proof fn lemma_bit_at_byte(bytes: Seq<u8>, q: int, k: int)
    requires
        0 <= q,
        0 <= k < 8,
    ensures
        bit_at(bytes, 8 * q + k) == bit_set(bytes[q], k as u8),
{
    assert((8 * q + k) / 8 == q && (8 * q + k) % 8 == k) by (nonlinear_arith)
        requires
            0 <= q,
            0 <= k < 8,
    ;
}

/// The eight bits of byte `q` add its population count to the running count.
proof fn lemma_ones_prefix_byte_step(bytes: Seq<u8>, q: nat)
    ensures
        ones_prefix(bytes, 8 * q + 8) == ones_prefix(bytes, 8 * q) + popcount(bytes[q as int]),
{
    let b = bytes[q as int];
    let base = 8 * q;
    lemma_bit_at_byte(bytes, q as int, 0);
    lemma_bit_at_byte(bytes, q as int, 1);
    lemma_bit_at_byte(bytes, q as int, 2);
    lemma_bit_at_byte(bytes, q as int, 3);
    lemma_bit_at_byte(bytes, q as int, 4);
    lemma_bit_at_byte(bytes, q as int, 5);
    lemma_bit_at_byte(bytes, q as int, 6);
    lemma_bit_at_byte(bytes, q as int, 7);
    assert(ones_prefix(bytes, base + 1) == ones_prefix(bytes, base) + if bit_set(b, 0) { 1nat } else { 0nat });
    assert(ones_prefix(bytes, base + 2) == ones_prefix(bytes, base + 1) + if bit_set(b, 1) { 1nat } else { 0nat });
    assert(ones_prefix(bytes, base + 3) == ones_prefix(bytes, base + 2) + if bit_set(b, 2) { 1nat } else { 0nat });
    assert(ones_prefix(bytes, base + 4) == ones_prefix(bytes, base + 3) + if bit_set(b, 3) { 1nat } else { 0nat });
    assert(ones_prefix(bytes, base + 5) == ones_prefix(bytes, base + 4) + if bit_set(b, 4) { 1nat } else { 0nat });
    assert(ones_prefix(bytes, base + 6) == ones_prefix(bytes, base + 5) + if bit_set(b, 5) { 1nat } else { 0nat });
    assert(ones_prefix(bytes, base + 7) == ones_prefix(bytes, base + 6) + if bit_set(b, 6) { 1nat } else { 0nat });
    assert(ones_prefix(bytes, base + 8) == ones_prefix(bytes, base + 7) + if bit_set(b, 7) { 1nat } else { 0nat });
}

/// Counting the bits of whole bytes one at a time gives the per-byte counts.
pub proof fn lemma_ones_prefix_bytes(bytes: Seq<u8>, m: nat)
    requires
        m <= bytes.len(),
    ensures
        ones_prefix(bytes, 8 * m) == ones_in_bytes(bytes.take(m as int)),
    decreases m,
{
    if m == 0 {
        assert(bytes.take(0) =~= Seq::<u8>::empty());
    } else {
        let p = (m - 1) as nat;
        lemma_ones_prefix_bytes(bytes, p);
        assert(bytes.take(m as int).drop_last() =~= bytes.take(p as int));
        lemma_ones_prefix_byte_step(bytes, p);
        assert(8 * m == 8 * p + 8);
    }
}

/// Unset bits past `n` do not change the count of set bits.
pub proof fn lemma_ones_prefix_padding(bytes: Seq<u8>, n: nat, m: nat)
    requires
        n <= m,
        forall|i: int| n <= i < m ==> !bit_at(bytes, i),
    ensures
        ones_prefix(bytes, m) == ones_prefix(bytes, n),
    decreases m,
{
    if m > n {
        lemma_ones_prefix_padding(bytes, n, (m - 1) as nat);
        assert(!bit_at(bytes, m - 1));
    }
}

/// The set bits of a prefix of a sequence built from bit positions.
pub proof fn lemma_count_true_prefix(bytes: Seq<u8>, s: Seq<bool>, t: nat)
    requires
        t <= s.len(),
        forall|i: int| 0 <= i < s.len() ==> s[i] == bit_at(bytes, i),
    ensures
        count_true(s.take(t as int)) == ones_prefix(bytes, t),
    decreases t,
{
    if t > 0 {
        lemma_count_true_prefix(bytes, s, (t - 1) as nat);
        assert(s.take(t as int).drop_last() =~= s.take(t - 1));
    }
}

/// Every entry is either `true` or `false`.
pub proof fn lemma_count_true_false(s: Seq<bool>)
    ensures
        count_true(s) + count_false(s) == s.len(),
    decreases s.len(),
{
    if s.len() > 0 {
        lemma_count_true_false(s.drop_last());
    }
}

} // verus!
