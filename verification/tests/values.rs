use stacking::value::{assert_val_eq, Val};

fn samples() -> Vec<Val> {
    vec![
        Val::I32(0),
        Val::I32(-1),
        Val::I64(0),
        Val::I64(i64::MIN),
        Val::F32(1.5f32.to_bits()),
        Val::F32(0),
        Val::F32(0x8000_0000),
        Val::F32(f32::NAN.to_bits()),
        Val::F32(0xffc0_0001),
        Val::F32(f32::INFINITY.to_bits()),
        Val::F64(1.5f64.to_bits()),
        Val::F64(0),
        Val::F64(0x8000_0000_0000_0000),
        Val::F64(f64::NAN.to_bits()),
        Val::F64(0x7ff0_0000_0000_0001),
        Val::F64(f64::NEG_INFINITY.to_bits()),
        Val::V128(0),
        Val::V128(u128::MAX),
        Val::ExternRef { null: true },
        Val::ExternRef { null: false },
        Val::FuncRef { null: true },
        Val::FuncRef { null: false },
    ]
}

#[test]
fn values_of_one_type() {
    assert!(assert_val_eq(&Val::I32(3), &Val::I32(3)));
    assert!(!assert_val_eq(&Val::I32(3), &Val::I32(4)));
    assert!(assert_val_eq(&Val::I64(-3), &Val::I64(-3)));
    assert!(!assert_val_eq(&Val::I64(3), &Val::I64(4)));
    assert!(!assert_val_eq(&Val::V128(1), &Val::V128(2)));
    assert!(assert_val_eq(&Val::V128(1), &Val::V128(1)));
    assert!(!assert_val_eq(&Val::FuncRef { null: true }, &Val::FuncRef { null: false }));
    assert!(assert_val_eq(&Val::ExternRef { null: false }, &Val::ExternRef { null: false }));
}

#[test]
fn values_of_different_types_differ() {
    assert!(!assert_val_eq(&Val::I32(0), &Val::I64(0)));
    assert!(!assert_val_eq(&Val::F32(0), &Val::I32(0)));
    assert!(!assert_val_eq(&Val::FuncRef { null: true }, &Val::ExternRef { null: true }));
}

#[test]
fn floats_agree_as_numbers_or_as_nans() {
    let patterns32: Vec<u32> = vec![
        0,
        0x8000_0000,
        1,
        0x3f80_0000,
        0xbf80_0000,
        0x7f80_0000,
        0xff80_0000,
        0x7f80_0001,
        0x7fc0_0000,
        0xffff_ffff,
    ];
    for a in &patterns32 {
        for b in &patterns32 {
            let (x, y) = (f32::from_bits(*a), f32::from_bits(*b));
            let expected = x == y || (x.is_nan() && y.is_nan());
            assert_eq!(assert_val_eq(&Val::F32(*a), &Val::F32(*b)), expected);
        }
    }
    let patterns64: Vec<u64> = vec![
        0,
        0x8000_0000_0000_0000,
        1,
        0x3ff0_0000_0000_0000,
        0x7ff0_0000_0000_0000,
        0xfff0_0000_0000_0000,
        0x7ff0_0000_0000_0001,
        0x7ff8_0000_0000_0000,
        u64::MAX,
    ];
    for a in &patterns64 {
        for b in &patterns64 {
            let (x, y) = (f64::from_bits(*a), f64::from_bits(*b));
            let expected = x == y || (x.is_nan() && y.is_nan());
            assert_eq!(assert_val_eq(&Val::F64(*a), &Val::F64(*b)), expected);
        }
    }
}

#[test]
fn agreement_of_values_is_an_equivalence() {
    let all = samples();
    for a in &all {
        assert!(assert_val_eq(a, a));
        for b in &all {
            assert_eq!(assert_val_eq(a, b), assert_val_eq(b, a));
            for c in &all {
                if assert_val_eq(a, b) && assert_val_eq(b, c) {
                    assert!(assert_val_eq(a, c));
                }
            }
        }
    }
}
