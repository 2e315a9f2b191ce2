//! Keys by which located items are ordered.
use vstd::prelude::*;

verus! {

/// The key by which an item is ordered.
///
/// `Value(v)` keys are totally ordered by `v`; an `Incomparable` key (a distance that is
/// "not a number") compares with nothing, itself included.
#[derive(Clone, Copy, Debug, PartialEq, Eq, Structural)]
pub enum OrderKey {
    Value(i64),
    Incomparable,
}

/// The outcome of comparing two comparable keys.
#[derive(Clone, Copy, Debug, PartialEq, Eq, Structural)]
pub enum KeyOrder {
    Less,
    Equal,
    Greater,
}

/// The partial order on keys, as a spec: `None` exactly when either key is incomparable.
pub open spec fn key_order(a: OrderKey, b: OrderKey) -> Option<KeyOrder> {
    match (a, b) {
        (OrderKey::Value(x), OrderKey::Value(y)) => if x < y {
            Some(KeyOrder::Less)
        } else if x == y {
            Some(KeyOrder::Equal)
        } else {
            Some(KeyOrder::Greater)
        },
        _ => None,
    }
}

/// Compares two keys: `Less`, `Equal` or `Greater` for two comparable keys, `None`
/// when either is incomparable.
pub fn compare_keys(a: &OrderKey, b: &OrderKey) -> (r: Option<KeyOrder>)
    ensures
        r == key_order(*a, *b),
        r is None <==> (*a is Incomparable || *b is Incomparable),
        *a matches OrderKey::Value(x) ==> (*b matches OrderKey::Value(y) ==> (r == Some(
            KeyOrder::Less,
        ) <==> x < y) && (r == Some(KeyOrder::Equal) <==> x == y) && (r == Some(KeyOrder::Greater)
            <==> x > y)),
{
    match (a, b) {
        (OrderKey::Value(x), OrderKey::Value(y)) => {
            if *x < *y {
                Some(KeyOrder::Less)
            } else if *x == *y {
                Some(KeyOrder::Equal)
            } else {
                Some(KeyOrder::Greater)
            }
        },
        _ => None,
    }
}

/// The sign bit of an IEEE-754 single-precision bit pattern (0 or 1).
pub open spec fn f32_sign(bits: u32) -> int {
    bits as int / 0x8000_0000
}

/// The bit pattern without its sign bit: exponent and mantissa.
pub open spec fn f32_magnitude(bits: u32) -> int {
    bits as int % 0x8000_0000
}

/// The pattern is a NaN: all exponent bits set and a non-zero mantissa.
pub open spec fn f32_is_nan(bits: u32) -> bool {
    f32_magnitude(bits) > 0x7f80_0000
}

/// IEEE-754 `a == b` on two non-NaN patterns: the same pattern, or two zeros of either sign.
pub open spec fn f32_bits_equal(a: u32, b: u32) -> bool {
    a == b || (f32_magnitude(a) == 0 && f32_magnitude(b) == 0)
}

/// IEEE-754 `a < b` on two non-NaN patterns. Among patterns of one sign the order of the
/// magnitudes is the order of the values (reversed for negative values); every negative
/// value lies below every positive one, and the two zeros are equal.
pub open spec fn f32_bits_less(a: u32, b: u32) -> bool {
    if f32_bits_equal(a, b) {
        false
    } else if f32_sign(a) == 0 && f32_sign(b) == 0 {
        f32_magnitude(a) < f32_magnitude(b)
    } else if f32_sign(a) == 1 && f32_sign(b) == 1 {
        f32_magnitude(a) > f32_magnitude(b)
    } else {
        f32_sign(a) == 1
    }
}

/// The key of a single-precision float given by its bit pattern: incomparable for a NaN,
/// otherwise its magnitude, negated for a negative value.
pub open spec fn f32_bits_key(bits: u32) -> OrderKey {
    if f32_is_nan(bits) {
        OrderKey::Incomparable
    } else if f32_sign(bits) == 1 {
        OrderKey::Value((-f32_magnitude(bits)) as i64)
    } else {
        OrderKey::Value(f32_magnitude(bits) as i64)
    }
}

/// The key of a single-precision float, from its bit pattern (`f32::to_bits`).
pub fn key_from_f32_bits(bits: u32) -> (r: OrderKey)
    ensures
        r == f32_bits_key(bits),
        r is Incomparable <==> (bits & 0x7f80_0000) == 0x7f80_0000 && (bits & 0x007f_ffff) != 0,
        !((bits & 0x7f80_0000) == 0x7f80_0000 && (bits & 0x007f_ffff) != 0) ==> r
            == OrderKey::Value(
            if (bits & 0x8000_0000) != 0 {
                (-((bits & 0x7fff_ffff) as int)) as i64
            } else {
                (bits & 0x7fff_ffff) as i64
            },
        ),
{
    proof {
        lemma_f32_bits_fields(bits);
    }
    let magnitude: u32 = bits % 0x8000_0000;
    if magnitude > 0x7f80_0000 {
        OrderKey::Incomparable
    } else if bits >= 0x8000_0000 {
        OrderKey::Value(-(magnitude as i64))
    } else {
        OrderKey::Value(magnitude as i64)
    }
}

/// The spec functions read the IEEE-754 fields of a pattern: the sign bit, the pattern without
/// it, and a NaN exactly where all exponent bits are set and the mantissa is not zero.
pub proof fn lemma_f32_bits_fields(b: u32)
    ensures
        f32_sign(b) == if (b & 0x8000_0000) != 0 { 1int } else { 0int },
        f32_magnitude(b) == (b & 0x7fff_ffff) as int,
        f32_is_nan(b) <==> (b & 0x7f80_0000) == 0x7f80_0000 && (b & 0x007f_ffff) != 0,
{
    assert(b % 0x8000_0000 == b & 0x7fff_ffff) by (bit_vector);
    assert((b & 0x8000_0000) != 0 <==> b >= 0x8000_0000) by (bit_vector);
    assert((b & 0x7fff_ffff) > 0x7f80_0000 <==> ((b & 0x7f80_0000) == 0x7f80_0000 && (b
        & 0x007f_ffff) != 0)) by (bit_vector);
}

/// The key of every float that is not a NaN is comparable: its signed magnitude, which
/// grows with the float's value (so, e.g., every finite float and both infinities get a
/// `Value`); the key of a NaN is incomparable.
pub proof fn lemma_f32_key_comparable_unless_nan(b: u32)
    ensures
        ((b & 0x7f80_0000) != 0x7f80_0000 || (b & 0x007f_ffff) == 0) ==> f32_bits_key(b)
            == OrderKey::Value(
            if (b & 0x8000_0000) != 0 {
                (-((b & 0x7fff_ffff) as int)) as i64
            } else {
                (b & 0x7fff_ffff) as i64
            },
        ),
        ((b & 0x7f80_0000) == 0x7f80_0000 && (b & 0x007f_ffff) != 0) ==> f32_bits_key(b)
            is Incomparable,
{
    lemma_f32_bits_fields(b);
}

/// Keys of floats compare as the floats do under IEEE-754: a NaN compares with nothing,
/// and two other values are less, equal or greater exactly as IEEE-754 orders them.
pub proof fn lemma_f32_key_order(a: u32, b: u32)
    ensures
        f32_is_nan(a) || f32_is_nan(b) ==> key_order(f32_bits_key(a), f32_bits_key(b)) is None,
        !f32_is_nan(a) && !f32_is_nan(b) ==> key_order(f32_bits_key(a), f32_bits_key(b)) == if f32_bits_less(a, b) {
            Some(KeyOrder::Less)
        } else if f32_bits_equal(a, b) {
            Some(KeyOrder::Equal)
        } else {
            Some(KeyOrder::Greater)
        },
{
    assert(0 <= f32_sign(a) <= 1);
    assert(0 <= f32_sign(b) <= 1);
    assert(a as int == f32_sign(a) * 0x8000_0000 + f32_magnitude(a));
    assert(b as int == f32_sign(b) * 0x8000_0000 + f32_magnitude(b));
}

} // verus!
