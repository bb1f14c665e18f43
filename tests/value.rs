use wasmer_jni::exception::Error;
use wasmer_jni::value::{
    box_value, pack_args, type_of_value, unbox_value, unpack_results, value_type_from_tag,
    ValueType, WasmValue,
};

#[test]
fn tags_name_types() {
    assert_eq!(value_type_from_tag(1), Ok(ValueType::I32));
    assert_eq!(value_type_from_tag(2), Ok(ValueType::I64));
    assert_eq!(value_type_from_tag(3), Ok(ValueType::F32));
    assert_eq!(value_type_from_tag(4), Ok(ValueType::F64));
    assert_eq!(value_type_from_tag(0), Err(Error::UnknownValueType(0)));
    assert_eq!(value_type_from_tag(5), Err(Error::UnknownValueType(5)));
}

#[test]
fn boxing_widens() {
    assert_eq!(box_value(WasmValue::I32(-1)), -1);
    assert_eq!(box_value(WasmValue::I64(i64::MIN)), i64::MIN);
    assert_eq!(box_value(WasmValue::F32(0xFFC0_0001)), 0xFFC0_0001);
    assert_eq!(box_value(WasmValue::F64(u64::MAX)), -1);
}

#[test]
fn unboxing_takes_low_bits() {
    assert_eq!(unbox_value(ValueType::I32, 0x1_0000_0005), WasmValue::I32(5));
    assert_eq!(unbox_value(ValueType::I32, -1), WasmValue::I32(-1));
    assert_eq!(unbox_value(ValueType::F32, 0x7_3F80_0000), WasmValue::F32(0x3F80_0000));
    assert_eq!(unbox_value(ValueType::F64, -1), WasmValue::F64(u64::MAX));
    assert_eq!(unbox_value(ValueType::I64, 12), WasmValue::I64(12));
}

#[test]
fn boxing_keeps_bit_patterns() {
    let nan64 = f64::from_bits(0x7FF8_0000_0000_0001);
    let nan32 = f32::from_bits(0x7FC0_0001);
    let values = vec![
        WasmValue::I32(-1),
        WasmValue::I64(-1),
        WasmValue::F32(nan32.to_bits()),
        WasmValue::F64(nan64.to_bits()),
        WasmValue::F32((-0.0f32).to_bits()),
    ];
    for v in values {
        assert_eq!(unbox_value(type_of_value(v), box_value(v)), v);
    }
    let back = unbox_value(ValueType::F64, box_value(WasmValue::F64(nan64.to_bits())));
    assert_eq!(back, WasmValue::F64(0x7FF8_0000_0000_0001));
}

#[test]
fn pack_then_unpack() {
    let types = vec![ValueType::I32, ValueType::F64, ValueType::I64];
    let args = vec![WasmValue::I32(-7), WasmValue::F64(1.5f64.to_bits()), WasmValue::I64(9)];
    let slots = pack_args(&types, &args).unwrap();
    assert_eq!(slots, vec![-7, 1.5f64.to_bits() as i64, 9]);
    assert_eq!(unpack_results(&types, &slots), Ok(args));
}

#[test]
fn pack_rejects_wrong_type() {
    let types = vec![ValueType::I32, ValueType::I64, ValueType::F32];
    let args = vec![WasmValue::I32(1), WasmValue::F64(0), WasmValue::I32(3)];
    assert_eq!(
        pack_args(&types, &args),
        Err(Error::TypeMismatch { position: 1, expected: ValueType::I64, found: ValueType::F64 })
    );
}

#[test]
fn pack_rejects_wrong_count() {
    let types = vec![ValueType::I32];
    assert_eq!(pack_args(&types, &vec![]), Err(Error::ArityMismatch { declared: 1, actual: 0 }));
    assert_eq!(pack_args(&vec![], &vec![]), Ok(vec![]));
}

#[test]
fn unpack_rejects_wrong_count() {
    let types = vec![ValueType::I32, ValueType::I32];
    assert_eq!(
        unpack_results(&types, &vec![1]),
        Err(Error::ArityMismatch { declared: 2, actual: 1 })
    );
    assert_eq!(unpack_results(&vec![], &vec![]), Ok(vec![]));
}
