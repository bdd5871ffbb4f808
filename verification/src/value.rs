//! Values of exported WebAssembly globals, and when two of them agree.

use vstd::prelude::*;

verus! {

/// The value of a global. Floats are held as their bit patterns, references
/// only by whether they are null.
#[derive(Clone, Copy, Debug)]
pub enum Val {
    I32(i32),
    I64(i64),
    F32(u32),
    F64(u64),
    V128(u128),
    ExternRef { null: bool },
    FuncRef { null: bool },
}

/// The bits of a 32-bit float below its sign bit.
pub open spec fn f32_magnitude(bits: u32) -> int {
    bits as int % 0x8000_0000
}

/// Whether `bits` encode a NaN: all exponent bits set and a nonzero fraction.
pub open spec fn f32_is_nan(bits: u32) -> bool {
    f32_magnitude(bits) > 0x7f80_0000
}

/// Numeric equality of two 32-bit floats: a NaN equals nothing, and the two
/// zeros equal each other.
pub open spec fn f32_equal(a: u32, b: u32) -> bool {
    &&& !f32_is_nan(a)
    &&& !f32_is_nan(b)
    &&& a == b || (f32_magnitude(a) == 0 && f32_magnitude(b) == 0)
}

/// The bits of a 64-bit float below its sign bit.
pub open spec fn f64_magnitude(bits: u64) -> int {
    bits as int % 0x8000_0000_0000_0000
}

/// Whether `bits` encode a NaN: all exponent bits set and a nonzero fraction.
pub open spec fn f64_is_nan(bits: u64) -> bool {
    f64_magnitude(bits) > 0x7ff0_0000_0000_0000
}

/// Numeric equality of two 64-bit floats.
pub open spec fn f64_equal(a: u64, b: u64) -> bool {
    &&& !f64_is_nan(a)
    &&& !f64_is_nan(b)
    &&& a == b || (f64_magnitude(a) == 0 && f64_magnitude(b) == 0)
}

/// When two globals count as holding the same value: they are of one type and
/// equal, where any two NaNs agree and references agree when both or neither
/// are null.
pub open spec fn val_eq(orig: Val, mutated: Val) -> bool {
    match (orig, mutated) {
        (Val::I32(o), Val::I32(m)) => o == m,
        (Val::I64(o), Val::I64(m)) => o == m,
        (Val::F32(o), Val::F32(m)) => f32_equal(o, m) || (f32_is_nan(o) && f32_is_nan(m)),
        (Val::F64(o), Val::F64(m)) => f64_equal(o, m) || (f64_is_nan(o) && f64_is_nan(m)),
        (Val::V128(o), Val::V128(m)) => o == m,
        (Val::ExternRef { null: o }, Val::ExternRef { null: m }) => o == m,
        (Val::FuncRef { null: o }, Val::FuncRef { null: m }) => o == m,
        _ => false,
    }
}

fn f32_agree(o: u32, m: u32) -> (same: bool)
    ensures
        same == (f32_equal(o, m) || (f32_is_nan(o) && f32_is_nan(m))),
{
    let o_magnitude: u32 = o % 0x8000_0000;
    let m_magnitude: u32 = m % 0x8000_0000;
    let o_nan = o_magnitude > 0x7f80_0000;
    let m_nan = m_magnitude > 0x7f80_0000;
    if o_nan || m_nan {
        o_nan && m_nan
    } else {
        o == m || (o_magnitude == 0 && m_magnitude == 0)
    }
}

fn f64_agree(o: u64, m: u64) -> (same: bool)
    ensures
        same == (f64_equal(o, m) || (f64_is_nan(o) && f64_is_nan(m))),
{
    let o_magnitude: u64 = o % 0x8000_0000_0000_0000;
    let m_magnitude: u64 = m % 0x8000_0000_0000_0000;
    let o_nan = o_magnitude > 0x7ff0_0000_0000_0000;
    let m_nan = m_magnitude > 0x7ff0_0000_0000_0000;
    if o_nan || m_nan {
        o_nan && m_nan
    } else {
        o == m || (o_magnitude == 0 && m_magnitude == 0)
    }
}

/// Whether a global of the original and one of the variant agree.
pub fn assert_val_eq(orig_val: &Val, mutated_val: &Val) -> (same: bool)
    ensures
        same == val_eq(*orig_val, *mutated_val),
{
    match (orig_val, mutated_val) {
        (Val::I32(o), Val::I32(m)) => *o == *m,
        (Val::I64(o), Val::I64(m)) => *o == *m,
        (Val::F32(o), Val::F32(m)) => f32_agree(*o, *m),
        (Val::F64(o), Val::F64(m)) => f64_agree(*o, *m),
        (Val::V128(o), Val::V128(m)) => *o == *m,
        (Val::ExternRef { null: o }, Val::ExternRef { null: m }) => *o == *m,
        (Val::FuncRef { null: o }, Val::FuncRef { null: m }) => *o == *m,
        _ => false,
    }
}

/// Every value agrees with itself, a NaN included.
pub proof fn law_val_eq_reflexive(a: Val)
    ensures
        val_eq(a, a),
{
}

/// It does not matter which of two values is the original's.
pub proof fn law_val_eq_symmetric(a: Val, b: Val)
    ensures
        val_eq(a, b) == val_eq(b, a),
{
}

/// Values that agree with a common third agree with each other.
pub proof fn law_val_eq_transitive(a: Val, b: Val, c: Val)
    requires
        val_eq(a, b),
        val_eq(b, c),
    ensures
        val_eq(a, c),
{
}

/// Whether the bits are those of a 32-bit float that is not a number: above
/// infinity, with either sign.
pub open spec fn beyond_infinity_32(bits: u32) -> bool {
    0x7f80_0000 < bits < 0x8000_0000 || 0xff80_0000 < bits
}

/// Whether the bits are those of a 64-bit float that is not a number: above
/// infinity, with either sign.
pub open spec fn beyond_infinity_64(bits: u64) -> bool {
    0x7ff0_0000_0000_0000 < bits < 0x8000_0000_0000_0000 || 0xfff0_0000_0000_0000 < bits
}

/// Two values agree if and only if they are of one type and have the same bits,
/// or are the two zeros, or are both not numbers; of references, only whether
/// they are null counts.
pub proof fn law_values_agree_exactly_when_equal(a: Val, b: Val)
    ensures
        val_eq(a, b) <==> match (a, b) {
            (Val::I32(x), Val::I32(y)) => x == y,
            (Val::I64(x), Val::I64(y)) => x == y,
            (Val::V128(x), Val::V128(y)) => x == y,
            (Val::F32(x), Val::F32(y)) => {
                ||| x == y
                ||| beyond_infinity_32(x) && beyond_infinity_32(y)
                ||| (x == 0 || x == 0x8000_0000) && (y == 0 || y == 0x8000_0000)
            },
            (Val::F64(x), Val::F64(y)) => {
                ||| x == y
                ||| beyond_infinity_64(x) && beyond_infinity_64(y)
                ||| (x == 0 || x == 0x8000_0000_0000_0000) && (y == 0 || y
                    == 0x8000_0000_0000_0000)
            },
            (Val::ExternRef { null: x }, Val::ExternRef { null: y }) => x == y,
            (Val::FuncRef { null: x }, Val::FuncRef { null: y }) => x == y,
            _ => false,
        },
{
}

} // verus!
